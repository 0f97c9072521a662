//! Why it is enough to follow as many redirects as there are chapters.
//!
//! Every redirect leads to the entry point of a loaded story. A chain that
//! comes to rest enters no story twice, so it is never longer than the number
//! of chapters; a chain that is longer never comes to rest.

use crate::engine::{redirect_target, settle, NarrativeStateView};
use crate::error::ContentErrorView;
use crate::lock::ProgressView;
use crate::store::StoreView;
use vstd::prelude::*;
use vstd::set_lib::{lemma_int_range, lemma_len_subset, set_int_range};

verus! {

/// Playback did not come to rest within the redirects it was allowed.
pub open spec fn is_loop(outcome: Result<NarrativeStateView, ContentErrorView>) -> bool {
    outcome is Err && outcome->Err_0 is RedirectLoop
}

/// The loaded story to which entering `step` of `story` leads on at once, if
/// there is one.
pub open spec fn onward(
    store: StoreView,
    progress: ProgressView,
    story: Seq<char>,
    step: nat,
) -> Option<Seq<char>> {
    match store.story(story) {
        None => None,
        Some(found) => match redirect_target(found.controller_at(step), progress, story) {
            Some(target) => if store.story(target) is Some {
                Some(target)
            } else {
                None
            },
            None => None,
        },
    }
}

/// The number of redirects after which playback that enters `step` of
/// `story` comes to rest or meets a fault of the content, where that happens
/// within `hops` redirects.
pub open spec fn distance(
    store: StoreView,
    progress: ProgressView,
    story: Seq<char>,
    step: nat,
    hops: nat,
) -> Option<nat>
    decreases hops,
{
    match onward(store, progress, story, step) {
        None => Some(0),
        Some(target) => if hops == 0 {
            None
        } else {
            match distance(store, progress, target, 0, (hops - 1) as nat) {
                Some(further) => Some(further + 1),
                None => None,
            }
        },
    }
}

/// The chapter that holds the story `id`.
pub open spec fn chapter_of(store: StoreView, id: Seq<char>) -> int {
    choose|i: int| store.first_named(i, id)
}

/// The chapters that the first `count` redirects from `step` of `story`
/// enter, in their order.
pub open spec fn trail(
    store: StoreView,
    progress: ProgressView,
    story: Seq<char>,
    step: nat,
    count: nat,
) -> Seq<int>
    decreases count,
{
    if count == 0 {
        Seq::empty()
    } else {
        match onward(store, progress, story, step) {
            Some(target) => seq![chapter_of(store, target)] + trail(
                store,
                progress,
                target,
                0,
                (count - 1) as nat,
            ),
            None => Seq::empty(),
        }
    }
}

/// The distance from the entry point of the story of a chapter.
pub open spec fn distance_from(
    store: StoreView,
    progress: ProgressView,
    chapter: int,
    hops: nat,
) -> Option<nat> {
    distance(store, progress, store.chapters[chapter].story.id, 0, hops)
}

/// Playback fails to come to rest exactly where the distance is beyond the
/// redirects allowed.
proof fn lemma_loop_iff_no_distance(
    store: StoreView,
    progress: ProgressView,
    story: Seq<char>,
    step: nat,
    hops: nat,
)
    ensures
        is_loop(settle(store, progress, story, step, hops)) <==> distance(
            store,
            progress,
            story,
            step,
            hops,
        ) is None,
    decreases hops,
{
    match onward(store, progress, story, step) {
        Some(target) => {
            if hops > 0 {
                lemma_loop_iff_no_distance(store, progress, target, 0, (hops - 1) as nat);
            }
        },
        None => {},
    }
}

/// A distance that is reached within some number of redirects is reached
/// within every number that is not smaller than the distance.
proof fn lemma_distance_stable(
    store: StoreView,
    progress: ProgressView,
    story: Seq<char>,
    step: nat,
    hops: nat,
    other: nat,
)
    requires
        distance(store, progress, story, step, hops) is Some,
    ensures
        distance(store, progress, story, step, hops)->0 <= hops,
        other >= distance(store, progress, story, step, hops)->0 ==> distance(
            store,
            progress,
            story,
            step,
            other,
        ) == distance(store, progress, story, step, hops),
    decreases hops,
{
    match onward(store, progress, story, step) {
        Some(target) => {
            lemma_distance_stable(
                store,
                progress,
                target,
                0,
                (hops - 1) as nat,
                (other - 1) as nat,
            );
        },
        None => {},
    }
}

/// Along a chain that comes to rest, every chapter entered lies one redirect
/// nearer to the rest than the one before.
proof fn lemma_trail(
    store: StoreView,
    progress: ProgressView,
    story: Seq<char>,
    step: nat,
    hops: nat,
)
    requires
        distance(store, progress, story, step, hops) is Some,
    ensures
        ({
            let reach = distance(store, progress, story, step, hops)->0;
            let entered = trail(store, progress, story, step, reach);
            &&& entered.len() == reach
            &&& forall|i: int|
                0 <= i < reach ==> {
                    &&& 0 <= #[trigger] entered[i] < store.chapters.len()
                    &&& distance_from(store, progress, entered[i], hops) == Some(
                        (reach - 1 - i) as nat,
                    )
                }
        }),
    decreases hops,
{
    let reach = distance(store, progress, story, step, hops)->0;
    let entered = trail(store, progress, story, step, reach);
    match onward(store, progress, story, step) {
        Some(target) => {
            let fewer = (hops - 1) as nat;
            let rest = trail(store, progress, target, 0, (reach - 1) as nat);
            lemma_trail(store, progress, target, 0, fewer);
            lemma_distance_stable(store, progress, target, 0, fewer, hops);
            assert forall|i: int| 0 <= i < reach implies {
                &&& 0 <= #[trigger] entered[i] < store.chapters.len()
                &&& distance_from(store, progress, entered[i], hops) == Some(
                    (reach - 1 - i) as nat,
                )
            } by {
                if i > 0 {
                    lemma_distance_stable(
                        store,
                        progress,
                        store.chapters[rest[i - 1]].story.id,
                        0,
                        fewer,
                        hops,
                    );
                }
            }
        },
        None => {},
    }
}

/// A chain that comes to rest is not longer than the number of chapters.
proof fn lemma_distance_bounded(
    store: StoreView,
    progress: ProgressView,
    story: Seq<char>,
    step: nat,
    hops: nat,
)
    requires
        distance(store, progress, story, step, hops) is Some,
    ensures
        distance(store, progress, story, step, hops)->0 <= store.chapters.len(),
{
    let reach = distance(store, progress, story, step, hops)->0;
    let entered = trail(store, progress, story, step, reach);
    let count = store.chapters.len() as int;
    lemma_trail(store, progress, story, step, hops);
    assert(entered.no_duplicates()) by {
        assert forall|i: int, j: int|
            0 <= i < entered.len() && 0 <= j < entered.len() && i != j implies entered[i]
            != entered[j] by {
            assert(distance_from(store, progress, entered[i], hops) == Some(
                (reach - 1 - i) as nat,
            ));
            assert(distance_from(store, progress, entered[j], hops) == Some(
                (reach - 1 - j) as nat,
            ));
        }
    }
    entered.unique_seq_to_set();
    lemma_int_range(0, count);
    assert(entered.to_set().subset_of(set_int_range(0, count))) by {
        assert forall|chapter: int| entered.to_set().contains(chapter) implies set_int_range(
            0,
            count,
        ).contains(chapter) by {
            let i = choose|i: int| 0 <= i < entered.len() && entered[i] == chapter;
            assert(0 <= entered[i] < count);
        }
    }
    lemma_len_subset(entered.to_set(), set_int_range(0, count));
}

/// Where playback comes to rest or meets a fault of the content, allowing
/// more redirects changes nothing.
pub proof fn lemma_more_hops_change_nothing(
    store: StoreView,
    progress: ProgressView,
    story: Seq<char>,
    step: nat,
    hops: nat,
    more: nat,
)
    requires
        !is_loop(settle(store, progress, story, step, hops)),
        more >= hops,
    ensures
        settle(store, progress, story, step, more) == settle(store, progress, story, step, hops),
    decreases hops,
{
    match onward(store, progress, story, step) {
        Some(target) => {
            lemma_more_hops_change_nothing(
                store,
                progress,
                target,
                0,
                (hops - 1) as nat,
                (more - 1) as nat,
            );
        },
        None => {},
    }
}

/// Following as many redirects as there are chapters loses nothing: where
/// that is not enough for playback to come to rest, no number of redirects
/// is.
pub proof fn lemma_bound_loses_nothing(
    store: StoreView,
    progress: ProgressView,
    story: Seq<char>,
    step: nat,
    hops: nat,
)
    requires
        is_loop(settle(store, progress, story, step, store.chapters.len())),
    ensures
        is_loop(settle(store, progress, story, step, hops)),
{
    let bound = store.chapters.len();
    lemma_loop_iff_no_distance(store, progress, story, step, hops);
    lemma_loop_iff_no_distance(store, progress, story, step, bound);
    if distance(store, progress, story, step, hops) is Some {
        lemma_distance_bounded(store, progress, story, step, hops);
        lemma_distance_stable(store, progress, story, step, hops, bound);
    }
}

} // verus!
