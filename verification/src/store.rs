//! The story store: the loaded chapters and the lookups into them.
//!
//! A store is built once from the authored chapters and is read-only
//! afterwards. No two of its chapters share an index or hold stories with the
//! same identifier.

use crate::error::{result_view, ContentError, ContentErrorView};
use crate::lock::{Progress, ProgressView};
use crate::model::{
    ChapterCondition, StoryComponent, StoryComponentView, StoryController, StoryControllerView,
};
use crate::story::{Story, StoryView};
use vstd::prelude::*;

verus! {

/// A story with the index under which it is listed and the condition under
/// which it can be selected.
#[derive(Debug, PartialEq, Eq)]
pub struct Chapter {
    pub index: usize,
    pub condition: ChapterCondition,
    pub story: Story,
}

/// A chapter with its story as a value.
pub struct ChapterView {
    pub index: nat,
    pub condition: ChapterCondition,
    pub story: StoryView,
}

impl View for Chapter {
    type V = ChapterView;

    open spec fn view(&self) -> ChapterView {
        ChapterView { index: self.index as nat, condition: self.condition, story: self.story@ }
    }
}

impl DeepView for Chapter {
    type V = ChapterView;

    open spec fn deep_view(&self) -> ChapterView {
        self@
    }
}

/// Chapter `j` has the index of a chapter that stands before it.
pub open spec fn index_taken_before(chapters: Seq<ChapterView>, j: int) -> bool {
    exists|i: int| 0 <= i < j && (#[trigger] chapters[i]).index == chapters[j].index
}

/// The story of chapter `j` has the identifier of one that stands before it.
pub open spec fn story_taken_before(chapters: Seq<ChapterView>, j: int) -> bool {
    exists|i: int| 0 <= i < j && (#[trigger] chapters[i]).story.id == chapters[j].story.id
}

/// No index and no story identifier occurs twice.
pub open spec fn distinct(chapters: Seq<ChapterView>) -> bool {
    forall|j: int|
        0 <= j < chapters.len() ==> !index_taken_before(chapters, j) && !story_taken_before(
            chapters,
            j,
        )
}

/// Chapter `j` is the first that repeats an index or a story identifier.
pub open spec fn first_repeat(chapters: Seq<ChapterView>, j: int) -> bool {
    &&& 0 <= j < chapters.len()
    &&& index_taken_before(chapters, j) || story_taken_before(chapters, j)
    &&& forall|k: int|
        0 <= k < j ==> !index_taken_before(chapters, k) && !story_taken_before(chapters, k)
}

/// The fault that a repeating chapter stands for: its index where that is
/// taken, else the identifier of its story.
pub open spec fn repeat_error(chapters: Seq<ChapterView>, j: int) -> ContentErrorView {
    if index_taken_before(chapters, j) {
        ContentErrorView::DuplicateChapter { chapter: chapters[j].index }
    } else {
        ContentErrorView::DuplicateStory { story: chapters[j].story.id }
    }
}

/// Whether a chapter with `condition` can be selected by a player with
/// `progress`.
pub open spec fn condition_met(condition: ChapterCondition, progress: ProgressView) -> bool {
    match condition {
        ChapterCondition::Prelude => true,
        ChapterCondition::Locked { fore_chapter } => progress.completed_chapters.contains(
            fore_chapter as nat,
        ),
    }
}

/// The chapters of a store, in the order in which they were loaded.
pub struct StoreView {
    pub chapters: Seq<ChapterView>,
}

impl StoreView {
    /// Chapter `i` is the first whose story has the identifier `id`.
    pub open spec fn first_named(self, i: int, id: Seq<char>) -> bool {
        &&& 0 <= i < self.chapters.len()
        &&& self.chapters[i].story.id == id
        &&& forall|k: int| 0 <= k < i ==> (#[trigger] self.chapters[k]).story.id != id
    }

    /// The story with the identifier `id`, if one is loaded.
    pub open spec fn story(self, id: Seq<char>) -> Option<StoryView> {
        if exists|i: int| self.first_named(i, id) {
            Some(self.chapters[choose|i: int| self.first_named(i, id)].story)
        } else {
            None
        }
    }

    /// Chapter `i` is the first with the index `index`.
    pub open spec fn first_numbered(self, i: int, index: nat) -> bool {
        &&& 0 <= i < self.chapters.len()
        &&& self.chapters[i].index == index
        &&& forall|k: int| 0 <= k < i ==> (#[trigger] self.chapters[k]).index != index
    }

    /// The chapter with the index `index`, if there is one.
    pub open spec fn chapter(self, index: nat) -> Option<ChapterView> {
        if exists|i: int| self.first_numbered(i, index) {
            Some(self.chapters[choose|i: int| self.first_numbered(i, index)])
        } else {
            None
        }
    }

    /// The components at `step` of the story `id`.
    pub open spec fn components_at(self, id: Seq<char>, step: nat) -> Result<
        Seq<StoryComponentView>,
        ContentErrorView,
    > {
        match self.story(id) {
            Some(story) => Ok(story.components_at(step)),
            None => Err(ContentErrorView::UnknownStory { story: id }),
        }
    }

    /// The controller at `step` of the story `id`.
    pub open spec fn controller_at(self, id: Seq<char>, step: nat) -> Result<
        Option<StoryControllerView>,
        ContentErrorView,
    > {
        match self.story(id) {
            Some(story) => Ok(story.controller_at(step)),
            None => Err(ContentErrorView::UnknownStory { story: id }),
        }
    }

    /// Whether the chapter `index` can be selected by a player with
    /// `progress`.
    pub open spec fn chapter_is_unlocked(self, index: nat, progress: ProgressView) -> Result<
        bool,
        ContentErrorView,
    > {
        match self.chapter(index) {
            Some(chapter) => Ok(condition_met(chapter.condition, progress)),
            None => Err(ContentErrorView::UnknownChapter { chapter: index }),
        }
    }
}

/// The loaded chapters.
#[derive(Debug, PartialEq, Eq)]
pub struct StoryStore {
    chapters: Vec<Chapter>,
}

impl View for StoryStore {
    type V = StoreView;

    closed spec fn view(&self) -> StoreView {
        StoreView { chapters: self.chapters.deep_view() }
    }
}

impl StoryStore {
    #[verifier::type_invariant]
    closed spec fn inv(self) -> bool {
        distinct(self.chapters.deep_view())
    }

    /// Builds the store from the authored chapters. They are refused where
    /// an index or a story identifier occurs twice, and the fault names what
    /// the first repeating chapter repeats.
    pub fn load(chapters: Vec<Chapter>) -> (r: Result<StoryStore, ContentError>)
        ensures
            match r {
                Ok(store) => distinct(chapters.deep_view()) && store@.chapters
                    == chapters.deep_view(),
                Err(e) => exists|j: int|
                    #![trigger repeat_error(chapters.deep_view(), j)]
                    first_repeat(chapters.deep_view(), j) && e@ == repeat_error(
                        chapters.deep_view(),
                        j,
                    ),
            },
    {
        let n = chapters.len();
        let ghost list = chapters.deep_view();
        let mut j: usize = 0;
        while j < n
            invariant
                j <= n,
                n == chapters.len(),
                list == chapters.deep_view(),
                forall|k: int|
                    0 <= k < j ==> !index_taken_before(list, k) && !story_taken_before(list, k),
            decreases n - j,
        {
            let mut i: usize = 0;
            while i < j
                invariant
                    i <= j,
                    j < n,
                    n == chapters.len(),
                    list == chapters.deep_view(),
                    forall|k: int|
                        0 <= k < j ==> !index_taken_before(list, k) && !story_taken_before(
                            list,
                            k,
                        ),
                    forall|k: int|
                        0 <= k < i ==> (#[trigger] list[k]).index != list[j as int].index,
                decreases j - i,
            {
                if chapters[i].index == chapters[j].index {
                    let fault = ContentError::DuplicateChapter { chapter: chapters[j].index };
                    proof {
                        assert(list[i as int].index == list[j as int].index);
                        assert(fault@ == repeat_error(list, j as int));
                    }
                    return Err(fault);
                }
                i += 1;
            }
            let name = chapters[j].story.id().to_owned();
            let mut i: usize = 0;
            while i < j
                invariant
                    i <= j,
                    j < n,
                    n == chapters.len(),
                    list == chapters.deep_view(),
                    name@ == list[j as int].story.id,
                    forall|k: int|
                        0 <= k < j ==> !index_taken_before(list, k) && !story_taken_before(
                            list,
                            k,
                        ),
                    !index_taken_before(list, j as int),
                    forall|k: int|
                        0 <= k < i ==> (#[trigger] list[k]).story.id != list[j as int].story.id,
                decreases j - i,
            {
                if chapters[i].story.is_named(&name) {
                    let fault = ContentError::DuplicateStory { story: name };
                    proof {
                        assert(list[i as int].story.id == list[j as int].story.id);
                        assert(fault@ == repeat_error(list, j as int));
                    }
                    return Err(fault);
                }
                i += 1;
            }
            j += 1;
        }
        Ok(StoryStore { chapters })
    }

    /// Gives the chapters back, in the order in which they were loaded.
    pub fn into_chapters(self) -> (chapters: Vec<Chapter>)
        ensures
            chapters.deep_view() == self@.chapters,
            distinct(chapters.deep_view()),
    {
        proof {
            use_type_invariant(&self);
        }
        self.chapters
    }

    /// The number of loaded chapters.
    pub fn len(&self) -> (n: usize)
        ensures
            n == self@.chapters.len(),
    {
        self.chapters.len()
    }

    /// The story with the identifier `id`, if one is loaded.
    pub fn story(&self, id: &str) -> (found: Option<&Story>)
        ensures
            found.deep_view() == self@.story(id@),
    {
        let wanted = id.to_owned();
        let ghost list = self.chapters.deep_view();
        let n = self.chapters.len();
        let mut i: usize = 0;
        while i < n
            invariant
                i <= n,
                n == self.chapters.len(),
                list == self.chapters.deep_view(),
                wanted@ == id@,
                forall|k: int| 0 <= k < i ==> (#[trigger] list[k]).story.id != id@,
            decreases n - i,
        {
            if self.chapters[i].story.is_named(&wanted) {
                proof {
                    assert(self@.first_named(i as int, id@));
                }
                return Some(&self.chapters[i].story);
            }
            i += 1;
        }
        None
    }

    /// The chapter with the index `index`, if there is one.
    pub fn chapter(&self, index: usize) -> (found: Option<&Chapter>)
        ensures
            found.deep_view() == self@.chapter(index as nat),
    {
        let ghost list = self.chapters.deep_view();
        let n = self.chapters.len();
        let mut i: usize = 0;
        while i < n
            invariant
                i <= n,
                n == self.chapters.len(),
                list == self.chapters.deep_view(),
                forall|k: int| 0 <= k < i ==> (#[trigger] list[k]).index != index,
            decreases n - i,
        {
            if self.chapters[i].index == index {
                proof {
                    assert(self@.first_numbered(i as int, index as nat));
                }
                return Some(&self.chapters[i]);
            }
            i += 1;
        }
        None
    }

    /// The components that stand at `step` of the story `id`, in authored
    /// order; empty where nothing stands there. An unknown story is a fault.
    pub fn components_at(&self, id: &str, step: usize) -> (r: Result<
        Vec<&StoryComponent>,
        ContentError,
    >)
        ensures
            result_view(r) == self@.components_at(id@, step as nat),
    {
        match self.story(id) {
            Some(story) => Ok(story.components_at(step)),
            None => Err(ContentError::UnknownStory { story: id.to_owned() }),
        }
    }

    /// The controller that stands at `step` of the story `id`, if there is
    /// one. An unknown story is a fault.
    pub fn controller_at(&self, id: &str, step: usize) -> (r: Result<
        Option<&StoryController>,
        ContentError,
    >)
        ensures
            result_view(r) == self@.controller_at(id@, step as nat),
    {
        match self.story(id) {
            Some(story) => Ok(story.controller_at(step)),
            None => Err(ContentError::UnknownStory { story: id.to_owned() }),
        }
    }

    /// Whether the chapter `index` can be selected by a player with
    /// `progress`: a prelude always, a locked chapter once the chapter before
    /// it has been completed. An unknown chapter is a fault.
    pub fn chapter_is_unlocked(&self, index: usize, progress: &Progress) -> (r: Result<
        bool,
        ContentError,
    >)
        ensures
            result_view(r) == self@.chapter_is_unlocked(index as nat, progress@),
    {
        match self.chapter(index) {
            Some(chapter) => {
                let open = match &chapter.condition {
                    ChapterCondition::Prelude => true,
                    ChapterCondition::Locked { fore_chapter } => progress.chapter_completed(
                        *fore_chapter,
                    ),
                };
                Ok(open)
            },
            None => Err(ContentError::UnknownChapter { chapter: index }),
        }
    }
}

} // verus!
