//! The authored story model and its mathematical views.
//!
//! Every type that holds text has a view in which the text is a sequence of
//! characters, so that contracts compare contents and never identities.

use vstd::prelude::*;

verus! {

/// One selectable continuation of a branch.
#[derive(Debug, PartialEq, Eq, Hash, Clone)]
pub struct Choice {
    pub text: String,
    pub next_story: String,
}

/// A choice with its texts as sequences of characters.
pub struct ChoiceView {
    pub text: Seq<char>,
    pub next_story: Seq<char>,
}

impl View for Choice {
    type V = ChoiceView;

    open spec fn view(&self) -> ChoiceView {
        ChoiceView { text: self.text@, next_story: self.next_story@ }
    }
}

impl DeepView for Choice {
    type V = ChoiceView;

    open spec fn deep_view(&self) -> ChoiceView {
        self@
    }
}

/// Predicate that gates a conditional redirect.
#[derive(Debug, PartialEq, Eq, Hash, Clone)]
pub enum StoryLock {
    /// Open once the owning story has been completed at least this often.
    MultiTimesPlay(i32),
    /// Open once every listed ending has been unlocked.
    UnlockedDifferentEnd(Vec<String>),
}

/// A lock with its texts as sequences of characters.
pub enum StoryLockView {
    MultiTimesPlay(int),
    UnlockedDifferentEnd(Seq<Seq<char>>),
}

impl View for StoryLock {
    type V = StoryLockView;

    open spec fn view(&self) -> StoryLockView {
        match self {
            StoryLock::MultiTimesPlay(n) => StoryLockView::MultiTimesPlay(*n as int),
            StoryLock::UnlockedDifferentEnd(endings) => StoryLockView::UnlockedDifferentEnd(
                endings.deep_view(),
            ),
        }
    }
}

impl DeepView for StoryLock {
    type V = StoryLockView;

    open spec fn deep_view(&self) -> StoryLockView {
        self@
    }
}

/// Flow directive attached to a step.
#[derive(Debug, PartialEq, Eq, Hash, Clone)]
pub enum StoryController {
    /// Wait for the player to pick one of the present choices.
    Branch([Option<Choice>; 5]),
    /// Continue at the entry point of another story.
    Next(String),
    /// Continue at the entry point of another story if the lock is open.
    If(StoryLock, String),
    /// Playback is over.
    End,
}

/// A controller with its texts as sequences of characters and its slots as
/// a sequence.
pub enum StoryControllerView {
    Branch(Seq<Option<ChoiceView>>),
    Next(Seq<char>),
    If(StoryLockView, Seq<char>),
    End,
}

impl View for StoryController {
    type V = StoryControllerView;

    open spec fn view(&self) -> StoryControllerView {
        match self {
            StoryController::Branch(slots) => StoryControllerView::Branch(slots.deep_view()),
            StoryController::Next(target) => StoryControllerView::Next(target@),
            StoryController::If(lock, target) => StoryControllerView::If(lock@, target@),
            StoryController::End => StoryControllerView::End,
        }
    }
}

impl DeepView for StoryController {
    type V = StoryControllerView;

    open spec fn deep_view(&self) -> StoryControllerView {
        self@
    }
}

/// Attribution key of a line of dialogue.
#[derive(Debug, PartialEq, Eq, Hash, Clone)]
pub struct CharacterName {
    pub name: String,
}

impl View for CharacterName {
    type V = Seq<char>;

    open spec fn view(&self) -> Seq<char> {
        self.name@
    }
}

impl DeepView for CharacterName {
    type V = Seq<char>;

    open spec fn deep_view(&self) -> Seq<char> {
        self@
    }
}

/// Two single-precision numbers, each held as its IEEE 754 bit pattern.
/// The engine hands such values through untouched.
#[derive(Debug, PartialEq, Eq, Hash, Clone, Copy)]
pub struct FloatPair {
    pub x: u32,
    pub y: u32,
}

/// Where and how a sprite is drawn.
#[derive(Debug, PartialEq, Eq, Hash, Clone)]
pub struct Character {
    pub name: String,
    pub face: String,
    pub pos: FloatPair,
    pub scale: FloatPair,
}

/// A sprite description with its texts as sequences of characters.
pub struct CharacterView {
    pub name: Seq<char>,
    pub face: Seq<char>,
    pub pos: FloatPair,
    pub scale: FloatPair,
}

impl View for Character {
    type V = CharacterView;

    open spec fn view(&self) -> CharacterView {
        CharacterView { name: self.name@, face: self.face@, pos: self.pos, scale: self.scale }
    }
}

impl DeepView for Character {
    type V = CharacterView;

    open spec fn deep_view(&self) -> CharacterView {
        self@
    }
}

/// Marked-up text.
#[derive(Debug, PartialEq, Eq, Hash, Clone)]
pub enum TextComponents {
    RichText(String),
}

impl View for TextComponents {
    type V = Seq<char>;

    open spec fn view(&self) -> Seq<char> {
        match self {
            TextComponents::RichText(text) => text@,
        }
    }
}

/// One piece of content shown at a step.
#[derive(Debug, PartialEq, Eq, Hash, Clone)]
pub enum StoryComponent {
    /// A line of dialogue and its speaker.
    SimpleText(String, CharacterName),
    /// A background image.
    Bg(String, usize),
    /// A cut-in image.
    Cg(String, usize),
    /// A screen effect.
    ScreenFX(String, usize),
    /// A character sprite.
    Character(Character, usize),
}

/// A component with its texts as sequences of characters.
pub enum StoryComponentView {
    SimpleText(Seq<char>, Seq<char>),
    Bg(Seq<char>, nat),
    Cg(Seq<char>, nat),
    ScreenFX(Seq<char>, nat),
    Character(CharacterView, nat),
}

impl View for StoryComponent {
    type V = StoryComponentView;

    open spec fn view(&self) -> StoryComponentView {
        match self {
            StoryComponent::SimpleText(text, speaker) => StoryComponentView::SimpleText(
                text@,
                speaker@,
            ),
            StoryComponent::Bg(image, step) => StoryComponentView::Bg(image@, *step as nat),
            StoryComponent::Cg(image, step) => StoryComponentView::Cg(image@, *step as nat),
            StoryComponent::ScreenFX(effect, step) => StoryComponentView::ScreenFX(
                effect@,
                *step as nat,
            ),
            StoryComponent::Character(character, step) => StoryComponentView::Character(
                character@,
                *step as nat,
            ),
        }
    }
}

impl DeepView for StoryComponent {
    type V = StoryComponentView;

    open spec fn deep_view(&self) -> StoryComponentView {
        self@
    }
}

/// Condition under which a chapter can be selected.
#[derive(Debug, PartialEq, Eq, Hash, Clone)]
pub enum ChapterCondition {
    /// Always playable.
    Prelude,
    /// Playable once the chapter `fore_chapter` has been completed.
    Locked { fore_chapter: usize },
}

/// The layer of backgrounds and cut-ins, the lowest.
pub const LAYER_SCENERY: u8 = 0;

/// The layer of character sprites.
pub const LAYER_SPRITE: u8 = 1;

/// The layer of screen effects.
pub const LAYER_EFFECT: u8 = 2;

/// The layer of text, the topmost.
pub const LAYER_TEXT: u8 = 3;

impl StoryComponentView {
    /// The layer on which a component is drawn: scenery below sprites, sprites
    /// below screen effects, screen effects below text.
    pub open spec fn layer(self) -> u8 {
        match self {
            StoryComponentView::Bg(_, _) => LAYER_SCENERY,
            StoryComponentView::Cg(_, _) => LAYER_SCENERY,
            StoryComponentView::Character(_, _) => LAYER_SPRITE,
            StoryComponentView::ScreenFX(_, _) => LAYER_EFFECT,
            StoryComponentView::SimpleText(_, _) => LAYER_TEXT,
        }
    }
}

impl StoryComponent {
    /// The layer on which this component is drawn.
    pub fn layer(&self) -> (z: u8)
        ensures
            z == self@.layer(),
            z <= LAYER_TEXT,
    {
        match self {
            StoryComponent::Bg(_, _) => LAYER_SCENERY,
            StoryComponent::Cg(_, _) => LAYER_SCENERY,
            StoryComponent::Character(_, _) => LAYER_SPRITE,
            StoryComponent::ScreenFX(_, _) => LAYER_EFFECT,
            StoryComponent::SimpleText(_, _) => LAYER_TEXT,
        }
    }
}

/// The choices that are present in the slots of a branch, in slot order.
pub open spec fn present_choices(slots: Seq<Option<ChoiceView>>) -> Seq<ChoiceView>
    decreases slots.len(),
{
    if slots.len() == 0 {
        Seq::empty()
    } else {
        let front = present_choices(slots.drop_last());
        match slots.last() {
            Some(choice) => front.push(choice),
            None => front,
        }
    }
}

impl StoryControllerView {
    /// The ordered choices that this controller offers: those present in the
    /// slots of a branch, none for any other controller.
    pub open spec fn choices(self) -> Seq<ChoiceView> {
        match self {
            StoryControllerView::Branch(slots) => present_choices(slots),
            _ => Seq::empty(),
        }
    }
}

impl Choice {
    /// A copy of this choice.
    pub fn duplicate(&self) -> (copy: Choice)
        ensures
            copy == *self,
    {
        Choice { text: self.text.clone(), next_story: self.next_story.clone() }
    }
}

impl StoryController {
    /// The ordered choices that this controller offers. Empty slots of a
    /// branch are left out and the present choices keep their relative order.
    pub fn choices(&self) -> (out: Vec<Choice>)
        ensures
            out.deep_view() == self@.choices(),
    {
        let mut out: Vec<Choice> = Vec::new();
        match self {
            StoryController::Branch(slots) => {
                let mut i: usize = 0;
                while i < 5
                    invariant
                        i <= 5,
                        slots@.len() == 5,
                        out.deep_view() == present_choices(slots.deep_view().take(i as int)),
                    decreases 5 - i,
                {
                    if let Some(choice) = &slots[i] {
                        out.push(choice.duplicate());
                    }
                    proof {
                        let all = slots.deep_view();
                        assert(all.take(i + 1).drop_last() =~= all.take(i as int));
                    }
                    i += 1;
                }
                proof {
                    assert(slots.deep_view().take(5) =~= slots.deep_view());
                }
            },
            _ => {
            },
        }
        out
    }
}

} // verus!
