//! Conditional locks and the progress snapshot they are evaluated against.

use crate::model::{StoryLock, StoryLockView};
use vstd::prelude::*;

verus! {

/// How often one story has been completed.
#[derive(Debug, PartialEq, Eq, Clone)]
pub struct CompletionRecord {
    pub story: String,
    pub count: u32,
}

/// A completion record with its text as a sequence of characters.
pub struct CompletionRecordView {
    pub story: Seq<char>,
    pub count: nat,
}

impl View for CompletionRecord {
    type V = CompletionRecordView;

    open spec fn view(&self) -> CompletionRecordView {
        CompletionRecordView { story: self.story@, count: self.count as nat }
    }
}

impl DeepView for CompletionRecord {
    type V = CompletionRecordView;

    open spec fn deep_view(&self) -> CompletionRecordView {
        self@
    }
}

/// A read-only snapshot of what the player has achieved so far. The caller
/// fills it from persisted progress; the engine only reads it.
///
/// Where several completion records name one story, the first one counts.
#[derive(Debug, PartialEq, Eq, Clone)]
pub struct Progress {
    pub completions: Vec<CompletionRecord>,
    pub unlocked_endings: Vec<String>,
    pub completed_chapters: Vec<usize>,
}

/// Progress as the locks see it: a completion count for each story that has
/// one, the set of unlocked endings, and the set of completed chapters.
pub struct ProgressView {
    pub completions: Map<Seq<char>, nat>,
    pub unlocked_endings: Set<Seq<char>>,
    pub completed_chapters: Set<nat>,
}

/// Record `i` is the first that names `story`.
pub open spec fn is_first_record(
    records: Seq<CompletionRecordView>,
    i: int,
    story: Seq<char>,
) -> bool {
    &&& 0 <= i < records.len()
    &&& records[i].story == story
    &&& forall|k: int| 0 <= k < i ==> (#[trigger] records[k]).story != story
}

/// The completion counts that a list of records stands for.
pub open spec fn completions_of(records: Seq<CompletionRecordView>) -> Map<Seq<char>, nat> {
    Map::new(
        |story: Seq<char>| exists|i: int| is_first_record(records, i, story),
        |story: Seq<char>| records[choose|i: int| is_first_record(records, i, story)].count,
    )
}

/// The set of the texts in a list.
pub open spec fn texts_of(list: Seq<Seq<char>>) -> Set<Seq<char>> {
    Set::new(|text: Seq<char>| exists|i: int| 0 <= i < list.len() && #[trigger] list[i] == text)
}

/// The set of the numbers in a list.
pub open spec fn numbers_of(list: Seq<usize>) -> Set<nat> {
    Set::new(|n: nat| exists|i: int| 0 <= i < list.len() && #[trigger] list[i] == n)
}

impl View for Progress {
    type V = ProgressView;

    open spec fn view(&self) -> ProgressView {
        ProgressView {
            completions: completions_of(self.completions.deep_view()),
            unlocked_endings: texts_of(self.unlocked_endings.deep_view()),
            completed_chapters: numbers_of(self.completed_chapters@),
        }
    }
}

impl ProgressView {
    /// How often `story` has been completed, where that is on record.
    pub open spec fn completion_count(self, story: Seq<char>) -> Option<nat> {
        if self.completions.dom().contains(story) {
            Some(self.completions[story])
        } else {
            None
        }
    }
}

/// Whether `lock`, met in `story`, is open.
///
/// A completion lock is open once the story has been completed at least as
/// often as the lock asks; without a record for the story it stays closed.
/// An ending lock is open once every ending it lists is unlocked.
pub open spec fn lock_satisfied(
    lock: StoryLockView,
    progress: ProgressView,
    story: Seq<char>,
) -> bool {
    match lock {
        StoryLockView::MultiTimesPlay(threshold) => match progress.completion_count(story) {
            Some(count) => count >= threshold,
            None => false,
        },
        StoryLockView::UnlockedDifferentEnd(endings) => forall|i: int|
            0 <= i < endings.len() ==> progress.unlocked_endings.contains(#[trigger] endings[i]),
    }
}

impl Progress {
    /// A snapshot of a player who has achieved nothing yet: no completion
    /// is on record, no ending is unlocked and no chapter is completed. The
    /// three lists are empty, so that what a caller adds is all they hold.
    pub fn new() -> (progress: Progress)
        ensures
            progress.completions@ == Seq::<CompletionRecord>::empty(),
            progress.unlocked_endings@ == Seq::<String>::empty(),
            progress.completed_chapters@ == Seq::<usize>::empty(),
            progress@.completions == Map::<Seq<char>, nat>::empty(),
            progress@.unlocked_endings == Set::<Seq<char>>::empty(),
            progress@.completed_chapters == Set::<nat>::empty(),
    {
        Progress {
            completions: Vec::new(),
            unlocked_endings: Vec::new(),
            completed_chapters: Vec::new(),
        }
    }

    /// How often `story` has been completed, where that is on record.
    pub fn completion_count(&self, story: &str) -> (count: Option<u32>)
        ensures
            match count {
                Some(c) => self@.completion_count(story@) == Some(c as nat),
                None => self@.completion_count(story@) is None,
            },
    {
        let wanted = story.to_owned();
        let ghost records = self.completions.deep_view();
        let n = self.completions.len();
        let mut i: usize = 0;
        while i < n
            invariant
                i <= n,
                n == self.completions.len(),
                records == self.completions.deep_view(),
                wanted@ == story@,
                forall|k: int| 0 <= k < i ==> (#[trigger] records[k]).story != story@,
            decreases n - i,
        {
            if self.completions[i].story == wanted {
                proof {
                    assert(is_first_record(records, i as int, story@));
                }
                return Some(self.completions[i].count);
            }
            i += 1;
        }
        None
    }

    /// Whether `ending` has been unlocked.
    pub fn has_ending(&self, ending: &String) -> (unlocked: bool)
        ensures
            unlocked == self@.unlocked_endings.contains(ending@),
    {
        let ghost list = self.unlocked_endings.deep_view();
        let n = self.unlocked_endings.len();
        let mut i: usize = 0;
        while i < n
            invariant
                i <= n,
                n == self.unlocked_endings.len(),
                list == self.unlocked_endings.deep_view(),
                forall|k: int| 0 <= k < i ==> #[trigger] list[k] != ending@,
            decreases n - i,
        {
            if self.unlocked_endings[i] == *ending {
                assert(list[i as int] == ending@);
                return true;
            }
            i += 1;
        }
        false
    }

    /// Whether the chapter with the index `chapter` has been completed.
    pub fn chapter_completed(&self, chapter: usize) -> (completed: bool)
        ensures
            completed == self@.completed_chapters.contains(chapter as nat),
    {
        let n = self.completed_chapters.len();
        let mut i: usize = 0;
        while i < n
            invariant
                i <= n,
                n == self.completed_chapters.len(),
                forall|k: int| 0 <= k < i ==> #[trigger] self.completed_chapters@[k] != chapter,
            decreases n - i,
        {
            if self.completed_chapters[i] == chapter {
                return true;
            }
            i += 1;
        }
        false
    }
}

/// Whether `lock`, met in `story`, is open for a player with `progress`.
pub fn satisfied(lock: &StoryLock, progress: &Progress, story: &str) -> (open: bool)
    ensures
        open == lock_satisfied(lock@, progress@, story@),
{
    match lock {
        StoryLock::MultiTimesPlay(threshold) => {
            match progress.completion_count(story) {
                Some(count) => *threshold <= 0 || count >= *threshold as u32,
                None => false,
            }
        },
        StoryLock::UnlockedDifferentEnd(endings) => {
            let ghost listed = endings.deep_view();
            let n = endings.len();
            let mut i: usize = 0;
            while i < n
                invariant
                    i <= n,
                    n == endings.len(),
                    listed == endings.deep_view(),
                    lock@ == StoryLockView::UnlockedDifferentEnd(listed),
                    forall|k: int|
                        0 <= k < i ==> progress@.unlocked_endings.contains(#[trigger] listed[k]),
                decreases n - i,
            {
                if !progress.has_ending(&endings[i]) {
                    proof {
                        assert(!progress@.unlocked_endings.contains(listed[i as int]));
                        assert(lock@ matches StoryLockView::UnlockedDifferentEnd(e) && e
                            == listed);
                    }
                    return false;
                }
                i += 1;
            }
            true
        },
    }
}

} // verus!
