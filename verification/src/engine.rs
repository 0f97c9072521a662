//! The narrative state machine.
//!
//! A playback session is a position in a story, the state of the controller
//! met there, and the progress of text reveal. Confirm and choice events move
//! it; the store and the progress snapshot are only read. A transition is
//! applied whole or not at all.

use crate::error::{result_view, ContentError, ContentErrorView};
use crate::lock::{lock_satisfied, satisfied, Progress, ProgressView};
use crate::model::{present_choices, Choice, ChoiceView, StoryController, StoryControllerView};
use crate::store::{StoreView, StoryStore};
use vstd::prelude::*;

verus! {

/// What the controller at the current step asks of the player.
#[derive(Debug, PartialEq, Eq, Clone)]
pub enum ControllerState {
    /// Nothing: a confirm moves on.
    Reading,
    /// A choice among these, in this order.
    AwaitingBranch(Vec<Choice>),
    /// Playback is over.
    Ended,
}

/// A controller state with its choices as values.
pub enum ControllerStateView {
    Reading,
    AwaitingBranch(Seq<ChoiceView>),
    Ended,
}

impl View for ControllerState {
    type V = ControllerStateView;

    open spec fn view(&self) -> ControllerStateView {
        match self {
            ControllerState::Reading => ControllerStateView::Reading,
            ControllerState::AwaitingBranch(choices) => ControllerStateView::AwaitingBranch(
                choices.deep_view(),
            ),
            ControllerState::Ended => ControllerStateView::Ended,
        }
    }
}

/// The state of one playback session.
#[derive(Debug, PartialEq, Eq, Clone)]
pub struct NarrativeState {
    pub current_story: String,
    pub current_step: usize,
    pub controller_state: ControllerState,
    /// Text reveal so far, in units of which `REVEAL_UNITS` make one
    /// character.
    pub text_reveal_progress: u64,
}

/// The state of a session as the transitions see it.
pub struct NarrativeStateView {
    pub current_story: Seq<char>,
    pub current_step: nat,
    pub controller_state: ControllerStateView,
    pub text_reveal_progress: nat,
}

impl View for NarrativeState {
    type V = NarrativeStateView;

    open spec fn view(&self) -> NarrativeStateView {
        NarrativeStateView {
            current_story: self.current_story@,
            current_step: self.current_step as nat,
            controller_state: self.controller_state@,
            text_reveal_progress: self.text_reveal_progress as nat,
        }
    }
}

impl DeepView for NarrativeState {
    type V = NarrativeStateView;

    open spec fn deep_view(&self) -> NarrativeStateView {
        self@
    }
}

/// What an event did to the session.
#[derive(Debug, PartialEq, Eq, Clone, Copy)]
pub enum Signal {
    /// The event was not processed and the state is as it was.
    Ignored,
    /// Playback came to rest at a step and goes on.
    Proceeded,
    /// Playback reached its end with this event.
    Terminal,
}

/// The story to which `controller`, met in `story`, sends playback on at
/// once: the target of a `Next`, and that of an `If` whose lock is open.
///
/// An `If` whose lock is closed sends playback nowhere. Playback falls
/// through: the step is shown like a step without controller, and the next
/// confirm moves on.
pub open spec fn redirect_target(
    controller: Option<StoryControllerView>,
    progress: ProgressView,
    story: Seq<char>,
) -> Option<Seq<char>> {
    match controller {
        Some(StoryControllerView::Next(target)) => Some(target),
        Some(StoryControllerView::If(lock, target)) => if lock_satisfied(lock, progress, story) {
            Some(target)
        } else {
            None
        },
        _ => None,
    }
}

/// The controller state in which playback rests at a step that bears
/// `controller` and does not redirect.
pub open spec fn resting_state(controller: Option<StoryControllerView>) -> ControllerStateView {
    match controller {
        Some(StoryControllerView::Branch(slots)) => ControllerStateView::AwaitingBranch(
            present_choices(slots),
        ),
        Some(StoryControllerView::End) => ControllerStateView::Ended,
        _ => ControllerStateView::Reading,
    }
}

/// Where playback comes to rest when `step` of `story` is entered, following
/// at most `hops` redirects.
///
/// A redirect leads to the entry point of its target, which is entered in
/// turn. An unknown story, a redirect to an unknown story and a redirect
/// beyond the last hop are faults.
pub open spec fn settle(
    store: StoreView,
    progress: ProgressView,
    story: Seq<char>,
    step: nat,
    hops: nat,
) -> Result<NarrativeStateView, ContentErrorView>
    decreases hops,
{
    match store.story(story) {
        None => Err(ContentErrorView::UnknownStory { story }),
        Some(found) => {
            let controller = found.controller_at(step);
            match redirect_target(controller, progress, story) {
                None => Ok(
                    NarrativeStateView {
                        current_story: story,
                        current_step: step,
                        controller_state: resting_state(controller),
                        text_reveal_progress: 0,
                    },
                ),
                Some(target) => if store.story(target) is None {
                    Err(ContentErrorView::UnknownTarget { story, step, target })
                } else if hops == 0 {
                    Err(ContentErrorView::RedirectLoop { story, step })
                } else {
                    settle(store, progress, target, 0, (hops - 1) as nat)
                },
            }
        },
    }
}

/// Where playback comes to rest when `step` of `story` is entered. As many
/// redirects are followed as there are chapters, which is enough for every
/// chain that comes to rest (see `redirect::lemma_bound_loses_nothing`).
pub open spec fn enter(
    store: StoreView,
    progress: ProgressView,
    story: Seq<char>,
    step: nat,
) -> Result<NarrativeStateView, ContentErrorView> {
    settle(store, progress, story, step, store.chapters.len())
}

/// The signal of an event that was processed and left playback in `state`.
pub open spec fn arrival_signal(state: NarrativeStateView) -> Signal {
    if state.controller_state is Ended {
        Signal::Terminal
    } else {
        Signal::Proceeded
    }
}

/// A state and the signal with which it was reached.
pub open spec fn arrival(
    entered: Result<NarrativeStateView, ContentErrorView>,
) -> Result<(NarrativeStateView, Signal), ContentErrorView> {
    match entered {
        Ok(state) => Ok((state, arrival_signal(state))),
        Err(fault) => Err(fault),
    }
}

/// The effect of a confirm event.
///
/// While reading, playback enters the next step with text reveal at zero.
/// While a choice is awaited and after the end, the event is ignored.
pub open spec fn after_confirm(
    store: StoreView,
    progress: ProgressView,
    state: NarrativeStateView,
) -> Result<(NarrativeStateView, Signal), ContentErrorView> {
    match state.controller_state {
        ControllerStateView::Reading => if state.current_step >= usize::MAX {
            Err(
                ContentErrorView::StepOverflow {
                    story: state.current_story,
                    step: state.current_step,
                },
            )
        } else {
            arrival(enter(store, progress, state.current_story, state.current_step + 1))
        },
        _ => Ok((state, Signal::Ignored)),
    }
}

/// The effect of selecting the choice with the index `index`.
///
/// While a choice is awaited and `index` names one of the choices, playback
/// enters the entry point of the story that the choice leads to. In every
/// other case the event is ignored.
pub open spec fn after_select(
    store: StoreView,
    progress: ProgressView,
    state: NarrativeStateView,
    index: nat,
) -> Result<(NarrativeStateView, Signal), ContentErrorView> {
    match state.controller_state {
        ControllerStateView::AwaitingBranch(choices) => if index < choices.len() {
            let target = choices[index as int].next_story;
            if store.story(target) is None {
                Err(
                    ContentErrorView::UnknownTarget {
                        story: state.current_story,
                        step: state.current_step,
                        target,
                    },
                )
            } else {
                arrival(enter(store, progress, target, 0))
            }
        } else {
            Ok((state, Signal::Ignored))
        },
        _ => Ok((state, Signal::Ignored)),
    }
}

/// Units of text reveal that make one character.
pub const REVEAL_UNITS: u64 = 100_000;

/// What one tick adds to text reveal: the base rate, in thousandths of a
/// character for each tick at full speed, times the playback speed in
/// percent.
pub open spec fn reveal_gain(base_rate: u32, speed_percent: u32) -> nat {
    base_rate as nat * speed_percent as nat
}

/// Text reveal after one more tick. It stops counting at the largest value
/// that the counter holds.
pub open spec fn ticked(progress: nat, base_rate: u32, speed_percent: u32) -> nat {
    if progress + reveal_gain(base_rate, speed_percent) > u64::MAX {
        u64::MAX as nat
    } else {
        progress + reveal_gain(base_rate, speed_percent)
    }
}

/// The number of characters of a text of `length` characters that are
/// revealed at `progress`: the whole characters reached, at most all.
pub open spec fn revealed(progress: nat, length: nat) -> nat {
    if progress / (REVEAL_UNITS as nat) >= length {
        length
    } else {
        progress / (REVEAL_UNITS as nat)
    }
}

/// Follows the redirects from `step` of `story` to the state in which
/// playback rests.
fn come_to_rest(store: &StoryStore, progress: &Progress, story: &str, step: usize) -> (r: Result<
    NarrativeState,
    ContentError,
>)
    ensures
        result_view(r) == enter(store@, progress@, story@, step as nat),
{
    let ghost goal = enter(store@, progress@, story@, step as nat);
    let mut at_story: String = story.to_owned();
    let mut at_step: usize = step;
    let mut hops: usize = store.len();
    loop
        invariant
            goal == enter(store@, progress@, story@, step as nat),
            settle(store@, progress@, at_story@, at_step as nat, hops as nat) == goal,
        decreases hops,
    {
        let found = match store.story(at_story.as_str()) {
            Some(found) => found,
            None => {
                return Err(ContentError::UnknownStory { story: at_story });
            },
        };
        let controller = found.controller_at(at_step);
        let target: Option<&String> = match controller {
            Some(StoryController::Next(target)) => Some(target),
            Some(StoryController::If(lock, target)) => {
                if satisfied(lock, progress, at_story.as_str()) {
                    Some(target)
                } else {
                    None
                }
            },
            _ => None,
        };
        match target {
            None => {
                let controller_state = match controller {
                    Some(StoryController::End) => ControllerState::Ended,
                    Some(branch) => match branch {
                        StoryController::Branch(_) => ControllerState::AwaitingBranch(
                            branch.choices(),
                        ),
                        _ => ControllerState::Reading,
                    },
                    None => ControllerState::Reading,
                };
                return Ok(
                    NarrativeState {
                        current_story: at_story,
                        current_step: at_step,
                        controller_state,
                        text_reveal_progress: 0,
                    },
                );
            },
            Some(target) => {
                if store.story(target.as_str()).is_none() {
                    return Err(
                        ContentError::UnknownTarget {
                            story: at_story,
                            step: at_step,
                            target: target.clone(),
                        },
                    );
                }
                if hops == 0 {
                    return Err(ContentError::RedirectLoop { story: at_story, step: at_step });
                }
                at_story = target.clone();
                at_step = 0;
                hops = hops - 1;
            },
        }
    }
}

/// The signal of an event that was processed and left playback in `state`.
fn signal_on_arrival(state: &NarrativeState) -> (signal: Signal)
    ensures
        signal == arrival_signal(state@),
{
    match &state.controller_state {
        ControllerState::Ended => Signal::Terminal,
        _ => Signal::Proceeded,
    }
}

impl NarrativeState {
    /// A fresh session that has entered `step` of `story`. Whether playback
    /// is over from the start is told by `is_ended`.
    pub fn start(store: &StoryStore, progress: &Progress, story: &str, step: usize) -> (r: Result<
        NarrativeState,
        ContentError,
    >)
        ensures
            result_view(r) == enter(store@, progress@, story@, step as nat),
    {
        come_to_rest(store, progress, story, step)
    }

    /// Puts the session at `step` of `story`, whatever its state was. On a
    /// fault the session is left as it was.
    pub fn reset(
        &mut self,
        store: &StoryStore,
        progress: &Progress,
        story: &str,
        step: usize,
    ) -> (r: Result<Signal, ContentError>)
        ensures
            arrival(enter(store@, progress@, story@, step as nat)) == (match r {
                Ok(signal) => Ok((final(self)@, signal)),
                Err(fault) => Err(fault@),
            }),
            r is Err ==> *final(self) == *old(self),
    {
        match come_to_rest(store, progress, story, step) {
            Ok(next) => {
                let signal = signal_on_arrival(&next);
                *self = next;
                Ok(signal)
            },
            Err(fault) => Err(fault),
        }
    }

    /// Handles a confirm event. While reading, playback enters the next step
    /// and text reveal starts anew; otherwise the event is ignored. On a
    /// fault, and when the event is ignored, the session is left as it was.
    pub fn confirm(&mut self, store: &StoryStore, progress: &Progress) -> (r: Result<
        Signal,
        ContentError,
    >)
        ensures
            after_confirm(store@, progress@, old(self)@) == (match r {
                Ok(signal) => Ok((final(self)@, signal)),
                Err(fault) => Err(fault@),
            }),
            r is Err || r == Ok::<Signal, ContentError>(Signal::Ignored) ==> *final(self) == *old(
                self,
            ),
    {
        match &self.controller_state {
            ControllerState::Reading => {},
            _ => {
                return Ok(Signal::Ignored);
            },
        }
        if self.current_step == usize::MAX {
            return Err(
                ContentError::StepOverflow {
                    story: self.current_story.clone(),
                    step: self.current_step,
                },
            );
        }
        match come_to_rest(store, progress, self.current_story.as_str(), self.current_step + 1) {
            Ok(next) => {
                let signal = signal_on_arrival(&next);
                *self = next;
                Ok(signal)
            },
            Err(fault) => Err(fault),
        }
    }

    /// Handles the selection of the choice with the index `index`. While a
    /// choice is awaited and `index` names one, playback enters the story
    /// that the choice leads to; otherwise the event is ignored. On a fault,
    /// and when the event is ignored, the session is left as it was.
    pub fn select_choice(&mut self, store: &StoryStore, progress: &Progress, index: usize) -> (r:
        Result<Signal, ContentError>)
        ensures
            after_select(store@, progress@, old(self)@, index as nat) == (match r {
                Ok(signal) => Ok((final(self)@, signal)),
                Err(fault) => Err(fault@),
            }),
            r is Err || r == Ok::<Signal, ContentError>(Signal::Ignored) ==> *final(self) == *old(
                self,
            ),
    {
        let target: String = match &self.controller_state {
            ControllerState::AwaitingBranch(choices) => {
                if index < choices.len() {
                    choices[index].next_story.clone()
                } else {
                    return Ok(Signal::Ignored);
                }
            },
            _ => {
                return Ok(Signal::Ignored);
            },
        };
        if store.story(target.as_str()).is_none() {
            return Err(
                ContentError::UnknownTarget {
                    story: self.current_story.clone(),
                    step: self.current_step,
                    target,
                },
            );
        }
        match come_to_rest(store, progress, target.as_str(), 0) {
            Ok(next) => {
                let signal = signal_on_arrival(&next);
                *self = next;
                Ok(signal)
            },
            Err(fault) => Err(fault),
        }
    }

    /// Lets one tick of time pass: text reveal grows by the base rate, in
    /// thousandths of a character for each tick at full speed, times the
    /// playback speed in percent. Nothing else changes.
    pub fn tick(&mut self, base_rate: u32, speed_percent: u32)
        ensures
            final(self).text_reveal_progress == ticked(
                old(self).text_reveal_progress as nat,
                base_rate,
                speed_percent,
            ),
            final(self).current_story == old(self).current_story,
            final(self).current_step == old(self).current_step,
            final(self).controller_state == old(self).controller_state,
    {
        assert(base_rate as nat * speed_percent as nat <= u64::MAX) by (nonlinear_arith)
            requires
                base_rate <= u32::MAX,
                speed_percent <= u32::MAX,
        ;
        let gain: u64 = (base_rate as u64) * (speed_percent as u64);
        self.text_reveal_progress = self.text_reveal_progress.saturating_add(gain);
    }

    /// The number of characters of `text` that are revealed by now.
    pub fn revealed_chars(&self, text: &str) -> (count: usize)
        ensures
            count == revealed(self.text_reveal_progress as nat, text@.len()),
    {
        let length: usize = text.unicode_len();
        let reached: u64 = self.text_reveal_progress / REVEAL_UNITS;
        if reached >= length as u64 {
            length
        } else {
            reached as usize
        }
    }

    /// Whether playback is over.
    pub fn is_ended(&self) -> (ended: bool)
        ensures
            ended == (self@.controller_state is Ended),
    {
        match &self.controller_state {
            ControllerState::Ended => true,
            _ => false,
        }
    }
}

/// Text reveal after `ticks` ticks at one rate and one speed, starting from
/// `start`.
pub open spec fn progress_after(start: nat, base_rate: u32, speed_percent: u32, ticks: nat) -> nat
    decreases ticks,
{
    if ticks == 0 {
        start
    } else {
        ticked(
            progress_after(start, base_rate, speed_percent, (ticks - 1) as nat),
            base_rate,
            speed_percent,
        )
    }
}

/// A confirm while reading moves to the next step of the same story and
/// starts text reveal anew, whenever the step entered does not send playback
/// on. Where that step bears no controller, reading goes on.
pub proof fn lemma_confirm_advances(
    store: StoreView,
    progress: ProgressView,
    state: NarrativeStateView,
)
    requires
        state.controller_state is Reading,
        state.current_step < usize::MAX,
        store.story(state.current_story) matches Some(story) && redirect_target(
            story.controller_at(state.current_step + 1),
            progress,
            state.current_story,
        ) is None,
    ensures
        after_confirm(store, progress, state) matches Ok((next, signal)) && {
            &&& next.current_story == state.current_story
            &&& next.current_step == state.current_step + 1
            &&& next.text_reveal_progress == 0
            &&& signal != Signal::Ignored
            &&& store.story(state.current_story)->0.controller_at(state.current_step + 1)
                is None ==> next.controller_state is Reading
        },
{
}

/// Playback never rests at a step that bears `Next`: entering such a step
/// is entering the entry point of the target, within the same event.
pub proof fn lemma_next_redirects(
    store: StoreView,
    progress: ProgressView,
    story: Seq<char>,
    step: nat,
    target: Seq<char>,
    hops: nat,
)
    requires
        store.story(story) matches Some(found) && found.controller_at(step) == Some(
            StoryControllerView::Next(target),
        ),
        store.story(target) is Some,
        hops > 0,
    ensures
        settle(store, progress, story, step, hops) == settle(
            store,
            progress,
            target,
            0,
            (hops - 1) as nat,
        ),
{
}

/// A confirm that meets `Next` at the step entered leaves playback at the
/// entry point of the target, whenever that entry point does not send
/// playback on in turn.
pub proof fn lemma_confirm_follows_next(
    store: StoreView,
    progress: ProgressView,
    state: NarrativeStateView,
    target: Seq<char>,
)
    requires
        state.controller_state is Reading,
        state.current_step < usize::MAX,
        store.story(state.current_story) matches Some(story) && story.controller_at(
            state.current_step + 1,
        ) == Some(StoryControllerView::Next(target)),
        store.story(target) matches Some(aim) && redirect_target(
            aim.controller_at(0),
            progress,
            target,
        ) is None,
    ensures
        after_confirm(store, progress, state) matches Ok((next, signal)) && {
            &&& next.current_story == target
            &&& next.current_step == 0
            &&& next.text_reveal_progress == 0
        },
{
    lemma_next_redirects(
        store,
        progress,
        state.current_story,
        state.current_step + 1,
        target,
        store.chapters.len(),
    );
}

/// After the end every confirm and every selection is ignored and leaves the
/// state as it is.
pub proof fn lemma_ended_ignores_events(
    store: StoreView,
    progress: ProgressView,
    state: NarrativeStateView,
    index: nat,
)
    requires
        state.controller_state is Ended,
    ensures
        after_confirm(store, progress, state) == Ok::<
            (NarrativeStateView, Signal),
            ContentErrorView,
        >((state, Signal::Ignored)),
        after_select(store, progress, state, index) == Ok::<
            (NarrativeStateView, Signal),
            ContentErrorView,
        >((state, Signal::Ignored)),
{
}

/// The terminal signal is given by the event that brings playback to its
/// end, and by no other.
pub proof fn lemma_terminal_once(
    store: StoreView,
    progress: ProgressView,
    state: NarrativeStateView,
    index: nat,
)
    ensures
        after_confirm(store, progress, state) matches Ok((next, signal)) ==> (signal
            == Signal::Terminal <==> !(state.controller_state is Ended)
            && next.controller_state is Ended),
        after_select(store, progress, state, index) matches Ok((next, signal)) ==> (signal
            == Signal::Terminal <==> !(state.controller_state is Ended)
            && next.controller_state is Ended),
{
}

/// As long as the counter does not reach its largest value, text reveal grows
/// by the same gain with every tick.
pub proof fn lemma_progress_after(base_rate: u32, speed_percent: u32, ticks: nat)
    requires
        reveal_gain(base_rate, speed_percent) * ticks <= u64::MAX,
    ensures
        progress_after(0, base_rate, speed_percent, ticks) == reveal_gain(base_rate, speed_percent)
            * ticks,
    decreases ticks,
{
    let gain = reveal_gain(base_rate, speed_percent);
    if ticks > 0 {
        assert(gain * (ticks - 1) + gain == gain * ticks) by (nonlinear_arith);
        assert(gain * (ticks - 1) <= gain * ticks) by (nonlinear_arith)
            requires
                ticks > 0,
        ;
        lemma_progress_after(base_rate, speed_percent, (ticks - 1) as nat);
    } else {
        assert(gain * ticks == 0) by (nonlinear_arith)
            requires
                ticks == 0,
        ;
    }
}

/// At full speed, `ticks` ticks at a base rate of `base_rate` thousandths of
/// a character reveal the whole characters of `base_rate * ticks / 1000`, and
/// at most the whole text.
pub proof fn lemma_reveal_at_full_speed(base_rate: u32, ticks: nat, length: nat)
    requires
        base_rate * 100 * ticks <= u64::MAX,
    ensures
        revealed(progress_after(0, base_rate, 100, ticks), length) == if (base_rate * ticks) / 1000
            >= length {
            length as int
        } else {
            (base_rate * ticks) / 1000
        },
{
    let whole = base_rate * ticks;
    assert(reveal_gain(base_rate, 100) * ticks == whole * 100) by (nonlinear_arith)
        requires
            reveal_gain(base_rate, 100) == base_rate * 100,
            whole == base_rate * ticks,
    ;
    assert(base_rate * 100 * ticks == whole * 100) by (nonlinear_arith)
        requires
            whole == base_rate * ticks,
    ;
    lemma_progress_after(base_rate, 100, ticks);
}

/// Halving the playback speed halves the growth of text reveal.
pub proof fn lemma_half_speed_halves_growth(base_rate: u32, ticks: nat)
    requires
        base_rate * 100 * ticks <= u64::MAX,
    ensures
        2 * progress_after(0, base_rate, 50, ticks) == progress_after(0, base_rate, 100, ticks),
{
    let whole = base_rate * ticks;
    assert(reveal_gain(base_rate, 100) * ticks == whole * 100) by (nonlinear_arith)
        requires
            reveal_gain(base_rate, 100) == base_rate * 100,
            whole == base_rate * ticks,
    ;
    assert(reveal_gain(base_rate, 50) * ticks == whole * 50) by (nonlinear_arith)
        requires
            reveal_gain(base_rate, 50) == base_rate * 50,
            whole == base_rate * ticks,
    ;
    assert(base_rate * 100 * ticks == whole * 100) by (nonlinear_arith)
        requires
            whole == base_rate * ticks,
    ;
    assert(whole >= 0) by (nonlinear_arith)
        requires
            whole == base_rate * ticks,
            base_rate >= 0,
            ticks >= 0,
    ;
    lemma_progress_after(base_rate, 100, ticks);
    lemma_progress_after(base_rate, 50, ticks);
}

/// Playback rests only where it is not sent on: the state in which it comes
/// to rest names a loaded story and a step whose controller does not
/// redirect, and holds the controller state that this controller asks for,
/// with text reveal at zero.
pub proof fn lemma_rest_is_settled(
    store: StoreView,
    progress: ProgressView,
    story: Seq<char>,
    step: nat,
    hops: nat,
)
    requires
        settle(store, progress, story, step, hops) is Ok,
    ensures
        ({
            let state = settle(store, progress, story, step, hops)->Ok_0;
            &&& store.story(state.current_story) matches Some(found)
            &&& redirect_target(
                found.controller_at(state.current_step),
                progress,
                state.current_story,
            ) is None
            &&& state.controller_state == resting_state(found.controller_at(state.current_step))
            &&& state.text_reveal_progress == 0
            &&& settle(store, progress, state.current_story, state.current_step, hops) == Ok::<
                NarrativeStateView,
                ContentErrorView,
            >(state)
        }),
    decreases hops,
{
    let found = store.story(story)->0;
    match redirect_target(found.controller_at(step), progress, story) {
        Some(target) => {
            lemma_rest_is_settled(store, progress, target, 0, (hops - 1) as nat);
        },
        None => {},
    }
}

} // verus!
