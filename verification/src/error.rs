//! Faults of authored content.

use vstd::prelude::*;

verus! {

/// A fault in the authored content. Each one names the story, and where it
/// applies the step, at which the content is broken.
#[derive(Debug, PartialEq, Eq, Clone)]
pub enum ContentError {
    /// Two entries of `story` without a controller stand at `step`.
    DuplicateStep { story: String, step: usize },
    /// Two entries of `story` with a controller stand at `step`.
    ControllerCollision { story: String, step: usize },
    /// Two chapters hold a story with the identifier `story`.
    DuplicateStory { story: String },
    /// Two chapters have the index `chapter`.
    DuplicateChapter { chapter: usize },
    /// No story with the identifier `story` is loaded.
    UnknownStory { story: String },
    /// No chapter has the index `chapter`.
    UnknownChapter { chapter: usize },
    /// The controller at `step` of `story` leads to `target`, which is not
    /// loaded.
    UnknownTarget { story: String, step: usize, target: String },
    /// The redirects that were followed do not come to rest; the controller
    /// at `step` of `story` is the first that was not followed any more.
    RedirectLoop { story: String, step: usize },
    /// The step after `step` of `story` cannot be counted.
    StepOverflow { story: String, step: usize },
}

/// A fault with its texts as sequences of characters.
pub enum ContentErrorView {
    DuplicateStep { story: Seq<char>, step: nat },
    ControllerCollision { story: Seq<char>, step: nat },
    DuplicateStory { story: Seq<char> },
    DuplicateChapter { chapter: nat },
    UnknownStory { story: Seq<char> },
    UnknownChapter { chapter: nat },
    UnknownTarget { story: Seq<char>, step: nat, target: Seq<char> },
    RedirectLoop { story: Seq<char>, step: nat },
    StepOverflow { story: Seq<char>, step: nat },
}

impl View for ContentError {
    type V = ContentErrorView;

    open spec fn view(&self) -> ContentErrorView {
        match self {
            ContentError::DuplicateStep { story, step } => ContentErrorView::DuplicateStep {
                story: story@,
                step: *step as nat,
            },
            ContentError::ControllerCollision {
                story,
                step,
            } => ContentErrorView::ControllerCollision { story: story@, step: *step as nat },
            ContentError::DuplicateStory { story } => ContentErrorView::DuplicateStory {
                story: story@,
            },
            ContentError::DuplicateChapter { chapter } => ContentErrorView::DuplicateChapter {
                chapter: *chapter as nat,
            },
            ContentError::UnknownStory { story } => ContentErrorView::UnknownStory {
                story: story@,
            },
            ContentError::UnknownChapter { chapter } => ContentErrorView::UnknownChapter {
                chapter: *chapter as nat,
            },
            ContentError::UnknownTarget { story, step, target } => ContentErrorView::UnknownTarget {
                story: story@,
                step: *step as nat,
                target: target@,
            },
            ContentError::RedirectLoop { story, step } => ContentErrorView::RedirectLoop {
                story: story@,
                step: *step as nat,
            },
            ContentError::StepOverflow { story, step } => ContentErrorView::StepOverflow {
                story: story@,
                step: *step as nat,
            },
        }
    }
}

impl DeepView for ContentError {
    type V = ContentErrorView;

    open spec fn deep_view(&self) -> ContentErrorView {
        self@
    }
}

/// The view of a result: the view of what it holds, on either side.
pub open spec fn result_view<T: DeepView, E: DeepView>(r: Result<T, E>) -> Result<T::V, E::V> {
    match r {
        Ok(value) => Ok(value.deep_view()),
        Err(fault) => Err(fault.deep_view()),
    }
}

} // verus!
