use frameg::{
    Chapter, ChapterCondition, ContentError, Progress, Story, StoryComponent, StoryController,
    StoryEntry, StoryStore,
};

fn scene(name: &str) -> StoryComponent {
    StoryComponent::Bg(name.to_string(), 0)
}

fn story_named(id: &str) -> Story {
    let entries = vec![
        StoryEntry { controller: None, step: 0, components: vec![scene(id)] },
        StoryEntry { controller: Some(StoryController::End), step: 1, components: Vec::new() },
    ];
    Story::from_entries(id.to_string(), entries).unwrap()
}

fn chapter(index: usize, condition: ChapterCondition, id: &str) -> Chapter {
    Chapter { index, condition, story: story_named(id) }
}

fn library() -> StoryStore {
    StoryStore::load(vec![
        chapter(0, ChapterCondition::Prelude, "opening"),
        chapter(3, ChapterCondition::Locked { fore_chapter: 0 }, "middle"),
        chapter(7, ChapterCondition::Locked { fore_chapter: 3 }, "finale"),
    ])
    .unwrap()
}

fn completed(chapters: &[usize]) -> Progress {
    Progress {
        completions: Vec::new(),
        unlocked_endings: Vec::new(),
        completed_chapters: chapters.to_vec(),
    }
}

#[test]
fn store_counts_its_chapters() {
    assert_eq!(library().len(), 3);
    assert_eq!(StoryStore::load(Vec::new()).unwrap().len(), 0);
}

#[test]
fn store_finds_a_story_by_its_identifier() {
    let store = library();
    assert_eq!(store.story("middle").map(|s| s.id()), Some("middle"));
    assert!(store.story("missing").is_none());
    assert!(store.story("").is_none());
}

#[test]
fn store_finds_a_chapter_by_its_index() {
    let store = library();
    assert_eq!(store.chapter(7).map(|c| c.story.id()), Some("finale"));
    assert_eq!(
        store.chapter(3).map(|c| &c.condition),
        Some(&ChapterCondition::Locked { fore_chapter: 0 })
    );
    assert!(store.chapter(1).is_none());
}

#[test]
fn store_components_at_answers_for_the_named_story() {
    let store = library();
    assert_eq!(store.components_at("finale", 0), Ok(vec![&scene("finale")]));
    assert_eq!(store.components_at("finale", 1), Ok(Vec::new()));
    assert_eq!(store.components_at("finale", 99), Ok(Vec::new()));
}

#[test]
fn store_components_at_is_stable_across_calls() {
    let store = library();
    for step in 0..3 {
        assert_eq!(store.components_at("opening", step), store.components_at("opening", step));
    }
}

#[test]
fn store_controller_at_answers_for_the_named_story() {
    let store = library();
    assert_eq!(store.controller_at("opening", 1), Ok(Some(&StoryController::End)));
    assert_eq!(store.controller_at("opening", 0), Ok(None));
}

#[test]
fn an_unknown_story_is_a_fault() {
    let store = library();
    assert_eq!(
        store.components_at("missing", 0),
        Err(ContentError::UnknownStory { story: "missing".to_string() })
    );
    assert_eq!(
        store.controller_at("missing", 0),
        Err(ContentError::UnknownStory { story: "missing".to_string() })
    );
}

#[test]
fn a_repeated_chapter_index_is_refused() {
    let loaded = StoryStore::load(vec![
        chapter(1, ChapterCondition::Prelude, "a"),
        chapter(2, ChapterCondition::Prelude, "b"),
        chapter(1, ChapterCondition::Prelude, "c"),
    ]);
    assert_eq!(loaded, Err(ContentError::DuplicateChapter { chapter: 1 }));
}

#[test]
fn a_repeated_story_identifier_is_refused() {
    let loaded = StoryStore::load(vec![
        chapter(1, ChapterCondition::Prelude, "a"),
        chapter(2, ChapterCondition::Prelude, "b"),
        chapter(3, ChapterCondition::Prelude, "a"),
    ]);
    assert_eq!(loaded, Err(ContentError::DuplicateStory { story: "a".to_string() }));
}

#[test]
fn a_repeated_index_is_reported_before_a_repeated_identifier() {
    let loaded = StoryStore::load(vec![
        chapter(1, ChapterCondition::Prelude, "a"),
        chapter(2, ChapterCondition::Prelude, "b"),
        chapter(2, ChapterCondition::Prelude, "a"),
    ]);
    assert_eq!(loaded, Err(ContentError::DuplicateChapter { chapter: 2 }));
}

#[test]
fn the_first_repeating_chapter_is_reported() {
    let loaded = StoryStore::load(vec![
        chapter(1, ChapterCondition::Prelude, "a"),
        chapter(2, ChapterCondition::Prelude, "a"),
        chapter(1, ChapterCondition::Prelude, "c"),
    ]);
    assert_eq!(loaded, Err(ContentError::DuplicateStory { story: "a".to_string() }));
}

#[test]
fn a_prelude_is_always_unlocked() {
    let store = library();
    assert_eq!(store.chapter_is_unlocked(0, &completed(&[])), Ok(true));
    assert_eq!(store.chapter_is_unlocked(0, &completed(&[3, 7])), Ok(true));
}

#[test]
fn a_locked_chapter_opens_once_the_chapter_before_is_completed() {
    let store = library();
    assert_eq!(store.chapter_is_unlocked(3, &completed(&[])), Ok(false));
    assert_eq!(store.chapter_is_unlocked(3, &completed(&[0])), Ok(true));
    assert_eq!(store.chapter_is_unlocked(7, &completed(&[0])), Ok(false));
    assert_eq!(store.chapter_is_unlocked(7, &completed(&[0, 3])), Ok(true));
}

#[test]
fn an_unknown_chapter_is_a_fault() {
    let store = library();
    assert_eq!(
        store.chapter_is_unlocked(5, &completed(&[0, 3, 7])),
        Err(ContentError::UnknownChapter { chapter: 5 })
    );
}

#[test]
fn chapters_come_back_as_they_were_loaded() {
    let chapters = library().into_chapters();
    let indices: Vec<usize> = chapters.iter().map(|c| c.index).collect();
    let names: Vec<&str> = chapters.iter().map(|c| c.story.id()).collect();
    assert_eq!(indices, vec![0, 3, 7]);
    assert_eq!(names, vec!["opening", "middle", "finale"]);
}
