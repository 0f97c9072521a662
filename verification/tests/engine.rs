use frameg::{
    active_choices, Chapter, ChapterCondition, Choice, CompletionRecord, ContentError,
    ControllerState, NarrativeState, Progress, Signal, Story, StoryComponent, StoryController,
    StoryEntry, StoryLock, StoryStore,
};

fn scene(name: &str) -> StoryComponent {
    StoryComponent::Bg(name.to_string(), 0)
}

fn plain(step: usize) -> StoryEntry {
    StoryEntry { controller: None, step, components: vec![scene("room")] }
}

fn with(controller: StoryController, step: usize) -> StoryEntry {
    StoryEntry { controller: Some(controller), step, components: Vec::new() }
}

fn next(target: &str) -> StoryController {
    StoryController::Next(target.to_string())
}

fn choice(text: &str, target: &str) -> Choice {
    Choice { text: text.to_string(), next_story: target.to_string() }
}

fn store_of(stories: Vec<(&str, Vec<StoryEntry>)>) -> StoryStore {
    let mut chapters = Vec::new();
    for (index, (id, entries)) in stories.into_iter().enumerate() {
        chapters.push(Chapter {
            index,
            condition: ChapterCondition::Prelude,
            story: Story::from_entries(id.to_string(), entries).unwrap(),
        });
    }
    StoryStore::load(chapters).unwrap()
}

fn sparse_branch() -> StoryController {
    StoryController::Branch([
        Some(choice("A", "left")),
        None,
        Some(choice("B", "middle")),
        None,
        Some(choice("C", "right")),
    ])
}

fn crossroads() -> StoryStore {
    store_of(vec![
        ("main", vec![plain(0), plain(1), with(sparse_branch(), 2)]),
        ("left", vec![plain(0), with(StoryController::End, 1)]),
        ("middle", vec![plain(0), plain(1)]),
        ("right", vec![with(next("left"), 0)]),
    ])
}

fn state_at(story: &str, step: usize, controller_state: ControllerState) -> NarrativeState {
    NarrativeState {
        current_story: story.to_string(),
        current_step: step,
        controller_state,
        text_reveal_progress: 0,
    }
}

#[test]
fn start_rests_at_a_step_without_controller() {
    let state = NarrativeState::start(&crossroads(), &Progress::new(), "main", 0).unwrap();
    assert_eq!(state, state_at("main", 0, ControllerState::Reading));
}

#[test]
fn start_may_enter_any_step() {
    let state = NarrativeState::start(&crossroads(), &Progress::new(), "main", 40).unwrap();
    assert_eq!(state, state_at("main", 40, ControllerState::Reading));
}

#[test]
fn start_with_an_unknown_story_is_a_fault() {
    assert_eq!(
        NarrativeState::start(&crossroads(), &Progress::new(), "nowhere", 0),
        Err(ContentError::UnknownStory { story: "nowhere".to_string() })
    );
}

#[test]
fn confirm_moves_to_the_next_step_and_resets_text_reveal() {
    let store = crossroads();
    let progress = Progress::new();
    let mut state = NarrativeState::start(&store, &progress, "main", 0).unwrap();
    state.tick(1000, 100);
    assert_eq!(state.text_reveal_progress, 100_000);
    assert_eq!(state.confirm(&store, &progress), Ok(Signal::Proceeded));
    assert_eq!(state, state_at("main", 1, ControllerState::Reading));
}

#[test]
fn confirm_runs_on_past_the_last_authored_step() {
    let store = crossroads();
    let progress = Progress::new();
    let mut state = NarrativeState::start(&store, &progress, "middle", 1).unwrap();
    for expected in 2..6 {
        assert_eq!(state.confirm(&store, &progress), Ok(Signal::Proceeded));
        assert_eq!(state.current_story, "middle");
        assert_eq!(state.current_step, expected);
        assert_eq!(state.text_reveal_progress, 0);
    }
}

#[test]
fn confirm_cannot_count_past_the_largest_step() {
    let store = crossroads();
    let progress = Progress::new();
    let mut state = state_at("main", usize::MAX, ControllerState::Reading);
    state.text_reveal_progress = 17;
    let before = state.clone();
    assert_eq!(
        state.confirm(&store, &progress),
        Err(ContentError::StepOverflow { story: "main".to_string(), step: usize::MAX })
    );
    assert_eq!(state, before);
}

#[test]
fn branch_exposes_the_present_choices_in_order() {
    let store = crossroads();
    let progress = Progress::new();
    let mut state = NarrativeState::start(&store, &progress, "main", 1).unwrap();
    assert_eq!(state.confirm(&store, &progress), Ok(Signal::Proceeded));
    let expected = vec![choice("A", "left"), choice("B", "middle"), choice("C", "right")];
    assert_eq!(state, state_at("main", 2, ControllerState::AwaitingBranch(expected.clone())));
    let offered: Vec<Choice> = active_choices(&state).into_iter().cloned().collect();
    assert_eq!(offered, expected);
}

#[test]
fn select_choice_resolves_the_index_among_the_present_choices() {
    let store = crossroads();
    let progress = Progress::new();
    let mut state = NarrativeState::start(&store, &progress, "main", 2).unwrap();
    state.tick(300, 100);
    assert_eq!(state.select_choice(&store, &progress, 1), Ok(Signal::Proceeded));
    assert_eq!(state, state_at("middle", 0, ControllerState::Reading));
}

#[test]
fn select_choice_follows_the_redirect_at_the_entry_point() {
    let store = crossroads();
    let progress = Progress::new();
    let mut state = NarrativeState::start(&store, &progress, "main", 2).unwrap();
    assert_eq!(state.select_choice(&store, &progress, 2), Ok(Signal::Proceeded));
    assert_eq!(state, state_at("left", 0, ControllerState::Reading));
}

#[test]
fn confirm_is_ignored_while_a_choice_is_awaited() {
    let store = crossroads();
    let progress = Progress::new();
    let mut state = NarrativeState::start(&store, &progress, "main", 2).unwrap();
    state.tick(5, 100);
    let before = state.clone();
    assert_eq!(state.confirm(&store, &progress), Ok(Signal::Ignored));
    assert_eq!(state, before);
}

#[test]
fn select_choice_ignores_an_index_that_names_no_choice() {
    let store = crossroads();
    let progress = Progress::new();
    let mut state = NarrativeState::start(&store, &progress, "main", 2).unwrap();
    let before = state.clone();
    assert_eq!(state.select_choice(&store, &progress, 3), Ok(Signal::Ignored));
    assert_eq!(state.select_choice(&store, &progress, usize::MAX), Ok(Signal::Ignored));
    assert_eq!(state, before);
}

#[test]
fn select_choice_is_ignored_while_reading() {
    let store = crossroads();
    let progress = Progress::new();
    let mut state = NarrativeState::start(&store, &progress, "main", 0).unwrap();
    let before = state.clone();
    assert_eq!(state.select_choice(&store, &progress, 0), Ok(Signal::Ignored));
    assert_eq!(state, before);
}

#[test]
fn a_branch_without_present_choices_waits_for_a_reset() {
    let store = store_of(vec![(
        "main",
        vec![with(StoryController::Branch([None, None, None, None, None]), 0)],
    )]);
    let progress = Progress::new();
    let mut state = NarrativeState::start(&store, &progress, "main", 0).unwrap();
    assert_eq!(state, state_at("main", 0, ControllerState::AwaitingBranch(Vec::new())));
    assert!(active_choices(&state).is_empty());
    assert_eq!(state.select_choice(&store, &progress, 0), Ok(Signal::Ignored));
    assert_eq!(state.confirm(&store, &progress), Ok(Signal::Ignored));
}

#[test]
fn next_redirects_without_a_further_confirm() {
    let store = store_of(vec![
        ("main", vec![plain(0), with(next("aside"), 1)]),
        ("aside", vec![plain(0)]),
    ]);
    let progress = Progress::new();
    let mut state = NarrativeState::start(&store, &progress, "main", 0).unwrap();
    state.tick(77, 100);
    assert_eq!(state.confirm(&store, &progress), Ok(Signal::Proceeded));
    assert_eq!(state, state_at("aside", 0, ControllerState::Reading));
}

#[test]
fn start_on_a_next_step_redirects_at_once() {
    let store = store_of(vec![
        ("main", vec![with(next("aside"), 0)]),
        ("aside", vec![with(StoryController::End, 0)]),
    ]);
    let state = NarrativeState::start(&store, &Progress::new(), "main", 0).unwrap();
    assert_eq!(state, state_at("aside", 0, ControllerState::Ended));
}

#[test]
fn a_chain_of_redirects_is_followed_to_its_end() {
    let store = store_of(vec![
        ("a", vec![plain(0), with(next("b"), 5)]),
        ("b", vec![with(next("c"), 0)]),
        ("c", vec![with(next("a"), 0)]),
    ]);
    let state = NarrativeState::start(&store, &Progress::new(), "a", 5).unwrap();
    assert_eq!(state, state_at("a", 0, ControllerState::Reading));
}

#[test]
fn redirects_that_do_not_come_to_rest_are_a_fault() {
    let store = store_of(vec![
        ("a", vec![with(next("b"), 0)]),
        ("b", vec![with(next("a"), 0)]),
        ("c", vec![plain(0), with(next("a"), 1)]),
    ]);
    let progress = Progress::new();
    assert_eq!(
        NarrativeState::start(&store, &progress, "a", 0),
        Err(ContentError::RedirectLoop { story: "b".to_string(), step: 0 })
    );
    let mut state = NarrativeState::start(&store, &progress, "c", 0).unwrap();
    let before = state.clone();
    assert_eq!(
        state.confirm(&store, &progress),
        Err(ContentError::RedirectLoop { story: "a".to_string(), step: 0 })
    );
    assert_eq!(state, before);
}

#[test]
fn a_story_that_redirects_to_itself_is_a_fault() {
    let store = store_of(vec![("a", vec![with(next("a"), 0)])]);
    assert_eq!(
        NarrativeState::start(&store, &Progress::new(), "a", 0),
        Err(ContentError::RedirectLoop { story: "a".to_string(), step: 0 })
    );
}

#[test]
fn a_redirect_to_an_unknown_story_is_a_fault() {
    let store = store_of(vec![("main", vec![plain(0), with(next("nowhere"), 1)])]);
    let progress = Progress::new();
    let mut state = NarrativeState::start(&store, &progress, "main", 0).unwrap();
    state.tick(9, 100);
    let before = state.clone();
    assert_eq!(
        state.confirm(&store, &progress),
        Err(ContentError::UnknownTarget {
            story: "main".to_string(),
            step: 1,
            target: "nowhere".to_string()
        })
    );
    assert_eq!(state, before);
}

#[test]
fn a_choice_that_leads_to_an_unknown_story_is_a_fault() {
    let branch = StoryController::Branch([
        None,
        Some(choice("Go", "nowhere")),
        None,
        None,
        None,
    ]);
    let store = store_of(vec![("main", vec![with(branch, 4)])]);
    let progress = Progress::new();
    let mut state = NarrativeState::start(&store, &progress, "main", 4).unwrap();
    let before = state.clone();
    assert_eq!(
        state.select_choice(&store, &progress, 0),
        Err(ContentError::UnknownTarget {
            story: "main".to_string(),
            step: 4,
            target: "nowhere".to_string()
        })
    );
    assert_eq!(state, before);
}

#[test]
fn confirm_in_an_unknown_story_is_a_fault() {
    let store = crossroads();
    let progress = Progress::new();
    let mut state = state_at("nowhere", 0, ControllerState::Reading);
    assert_eq!(
        state.confirm(&store, &progress),
        Err(ContentError::UnknownStory { story: "nowhere".to_string() })
    );
    assert_eq!(state, state_at("nowhere", 0, ControllerState::Reading));
}

fn locked_story() -> StoryStore {
    store_of(vec![
        (
            "main",
            vec![
                plain(0),
                StoryEntry {
                    controller: Some(StoryController::If(
                        StoryLock::MultiTimesPlay(3),
                        "secret".to_string(),
                    )),
                    step: 1,
                    components: vec![scene("threshold")],
                },
                plain(2),
            ],
        ),
        ("secret", vec![plain(0)]),
    ])
}

fn played(story: &str, count: u32) -> Progress {
    Progress {
        completions: vec![CompletionRecord { story: story.to_string(), count }],
        unlocked_endings: Vec::new(),
        completed_chapters: Vec::new(),
    }
}

#[test]
fn an_open_lock_redirects() {
    let store = locked_story();
    let progress = played("main", 3);
    let mut state = NarrativeState::start(&store, &progress, "main", 0).unwrap();
    assert_eq!(state.confirm(&store, &progress), Ok(Signal::Proceeded));
    assert_eq!(state, state_at("secret", 0, ControllerState::Reading));
}

#[test]
fn a_closed_lock_falls_through_to_reading() {
    let store = locked_story();
    let progress = played("main", 2);
    let mut state = NarrativeState::start(&store, &progress, "main", 0).unwrap();
    assert_eq!(state.confirm(&store, &progress), Ok(Signal::Proceeded));
    assert_eq!(state, state_at("main", 1, ControllerState::Reading));
    assert_eq!(state.confirm(&store, &progress), Ok(Signal::Proceeded));
    assert_eq!(state, state_at("main", 2, ControllerState::Reading));
}

#[test]
fn a_lock_counts_the_completions_of_the_story_that_holds_it() {
    let store = locked_story();
    let progress = played("secret", 10);
    let state = NarrativeState::start(&store, &progress, "main", 1).unwrap();
    assert_eq!(state, state_at("main", 1, ControllerState::Reading));
}

#[test]
fn a_closed_lock_with_an_unknown_target_is_no_fault() {
    let lock = StoryController::If(StoryLock::MultiTimesPlay(1), "nowhere".to_string());
    let store = store_of(vec![("main", vec![with(lock, 0)])]);
    let state = NarrativeState::start(&store, &Progress::new(), "main", 0).unwrap();
    assert_eq!(state, state_at("main", 0, ControllerState::Reading));
}

#[test]
fn an_ending_lock_opens_once_every_listed_ending_is_unlocked() {
    let lock = StoryController::If(
        StoryLock::UnlockedDifferentEnd(vec!["good".to_string(), "bad".to_string()]),
        "epilogue".to_string(),
    );
    let store = store_of(vec![
        ("main", vec![plain(0), with(lock, 1)]),
        ("epilogue", vec![with(StoryController::End, 0)]),
    ]);
    let mut progress = Progress::new();
    progress.unlocked_endings.push("good".to_string());
    let mut state = NarrativeState::start(&store, &progress, "main", 0).unwrap();
    assert_eq!(state.confirm(&store, &progress), Ok(Signal::Proceeded));
    assert_eq!(state, state_at("main", 1, ControllerState::Reading));
    progress.unlocked_endings.push("bad".to_string());
    assert_eq!(state.reset(&store, &progress, "main", 0), Ok(Signal::Proceeded));
    assert_eq!(state.confirm(&store, &progress), Ok(Signal::Terminal));
    assert_eq!(state, state_at("epilogue", 0, ControllerState::Ended));
}

#[test]
fn the_configured_speed_drives_text_reveal() {
    let config = frameg::Config::default();
    let mut state = state_at("main", 0, ControllerState::Reading);
    for _ in 0..5 {
        state.tick(1000, config.playback_speed_percent());
    }
    assert_eq!(state.text_reveal_progress, 300_000);
    assert_eq!(state.revealed_chars("Hello there"), 3);
}

#[test]
fn reaching_the_end_gives_the_terminal_signal_once() {
    let store = crossroads();
    let progress = Progress::new();
    let mut state = NarrativeState::start(&store, &progress, "left", 0).unwrap();
    assert!(!state.is_ended());
    assert_eq!(state.confirm(&store, &progress), Ok(Signal::Terminal));
    assert!(state.is_ended());
    assert_eq!(state, state_at("left", 1, ControllerState::Ended));
    state.tick(10, 100);
    let ended = state.clone();
    assert_eq!(state.confirm(&store, &progress), Ok(Signal::Ignored));
    assert_eq!(state.select_choice(&store, &progress, 0), Ok(Signal::Ignored));
    assert_eq!(state.confirm(&store, &progress), Ok(Signal::Ignored));
    assert_eq!(state, ended);
}

#[test]
fn a_choice_may_lead_straight_to_the_end() {
    let branch = StoryController::Branch([Some(choice("Stop", "over")), None, None, None, None]);
    let store = store_of(vec![
        ("main", vec![with(branch, 0)]),
        ("over", vec![with(StoryController::End, 0)]),
    ]);
    let progress = Progress::new();
    let mut state = NarrativeState::start(&store, &progress, "main", 0).unwrap();
    assert_eq!(state.select_choice(&store, &progress, 0), Ok(Signal::Terminal));
    assert_eq!(state, state_at("over", 0, ControllerState::Ended));
    assert_eq!(state.select_choice(&store, &progress, 0), Ok(Signal::Ignored));
}

#[test]
fn reset_revives_an_ended_session() {
    let store = crossroads();
    let progress = Progress::new();
    let mut state = NarrativeState::start(&store, &progress, "left", 1).unwrap();
    assert!(state.is_ended());
    state.tick(10, 100);
    assert_eq!(state.reset(&store, &progress, "main", 0), Ok(Signal::Proceeded));
    assert_eq!(state, state_at("main", 0, ControllerState::Reading));
    assert_eq!(state.confirm(&store, &progress), Ok(Signal::Proceeded));
    assert_eq!(state.current_step, 1);
}

#[test]
fn reset_onto_the_end_gives_the_terminal_signal() {
    let store = crossroads();
    let progress = Progress::new();
    let mut state = NarrativeState::start(&store, &progress, "main", 0).unwrap();
    assert_eq!(state.reset(&store, &progress, "left", 1), Ok(Signal::Terminal));
    assert!(state.is_ended());
}

#[test]
fn a_failed_reset_leaves_the_session_as_it_was() {
    let store = crossroads();
    let progress = Progress::new();
    let mut state = NarrativeState::start(&store, &progress, "main", 1).unwrap();
    state.tick(3, 100);
    let before = state.clone();
    assert_eq!(
        state.reset(&store, &progress, "nowhere", 0),
        Err(ContentError::UnknownStory { story: "nowhere".to_string() })
    );
    assert_eq!(state, before);
}

#[test]
fn tick_adds_rate_times_speed() {
    let mut state = state_at("main", 0, ControllerState::Reading);
    state.tick(250, 60);
    assert_eq!(state.text_reveal_progress, 15_000);
    state.tick(250, 60);
    assert_eq!(state.text_reveal_progress, 30_000);
    state.tick(0, 100);
    state.tick(100, 0);
    assert_eq!(state.text_reveal_progress, 30_000);
    assert_eq!(state.current_step, 0);
    assert_eq!(state.controller_state, ControllerState::Reading);
}

#[test]
fn tick_stops_counting_at_the_largest_value() {
    let mut state = state_at("main", 0, ControllerState::Reading);
    state.text_reveal_progress = u64::MAX - 5;
    state.tick(1, 5);
    assert_eq!(state.text_reveal_progress, u64::MAX);
    state.tick(u32::MAX, u32::MAX);
    assert_eq!(state.text_reveal_progress, u64::MAX);
}

#[test]
fn tick_takes_the_largest_rate_and_speed() {
    let mut state = state_at("main", 0, ControllerState::Reading);
    state.tick(u32::MAX, u32::MAX);
    assert_eq!(state.text_reveal_progress, 18_446_744_065_119_617_025);
}

#[test]
fn revealed_chars_are_the_whole_characters_reached() {
    let mut state = state_at("main", 0, ControllerState::Reading);
    let text = "Good evening.";
    assert_eq!(state.revealed_chars(text), 0);
    for _ in 0..7 {
        state.tick(500, 100);
    }
    assert_eq!(state.text_reveal_progress, 350_000);
    assert_eq!(state.revealed_chars(text), 3);
    state.tick(500, 100);
    assert_eq!(state.revealed_chars(text), 4);
}

#[test]
fn revealed_chars_stop_at_the_length_of_the_text() {
    let mut state = state_at("main", 0, ControllerState::Reading);
    for _ in 0..20 {
        state.tick(1000, 100);
    }
    assert_eq!(state.revealed_chars("Good evening."), 13);
    assert_eq!(state.revealed_chars(""), 0);
    state.text_reveal_progress = u64::MAX;
    assert_eq!(state.revealed_chars("Good evening."), 13);
}

#[test]
fn revealed_chars_count_characters_not_bytes() {
    let mut state = state_at("main", 0, ControllerState::Reading);
    state.text_reveal_progress = 900_000;
    assert_eq!(state.revealed_chars("héllo"), 5);
    assert_eq!(state.revealed_chars("日本語"), 3);
}

#[test]
fn half_the_speed_is_half_the_growth() {
    let mut full = state_at("main", 0, ControllerState::Reading);
    let mut half = state_at("main", 0, ControllerState::Reading);
    for _ in 0..9 {
        full.tick(700, 100);
        half.tick(700, 50);
    }
    assert_eq!(full.text_reveal_progress, 630_000);
    assert_eq!(half.text_reveal_progress, 315_000);
    assert_eq!(full.revealed_chars("A long enough line."), 6);
    assert_eq!(half.revealed_chars("A long enough line."), 3);
}

#[test]
fn rendering_does_not_reset_text_reveal() {
    let store = crossroads();
    let progress = Progress::new();
    let mut state = NarrativeState::start(&store, &progress, "main", 0).unwrap();
    state.tick(400, 100);
    let before = state.clone();
    let _ = frameg::visible_content(&state, &store);
    let _ = active_choices(&state);
    let _ = state.revealed_chars("Hello");
    assert_eq!(state, before);
}
