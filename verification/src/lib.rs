//! Narrative player for branching visual-novel stories.
//!
//! The crate holds the authored story model, the store that answers
//! step-indexed lookups, the evaluation of conditional locks, and the state
//! machine that advances, branches and terminates playback. Every executable
//! function carries a contract that is checked by Verus.

pub mod engine;
pub mod error;
pub mod lock;
pub mod model;
pub mod present;
pub mod redirect;
pub mod shell;
pub mod store;
pub mod story;
pub mod util;

pub use engine::{ControllerState, NarrativeState, Signal};
pub use error::ContentError;
pub use lock::{satisfied, CompletionRecord, Progress};
pub use model::{
    ChapterCondition, Character, CharacterName, Choice, FloatPair, StoryComponent,
    StoryController, StoryLock, TextComponents,
};
pub use present::{active_choices, visible_content, DrawItem};
pub use shell::{
    Config, Effect, FramegEntry, FramegInstance, GameMessage, GameState, Screen, ScreenLayout,
    SerdableWidget, ShellError, WidgetPlan, WindowScale,
};
pub use store::{Chapter, StoryStore};
pub use story::{Story, StoryEntry};
