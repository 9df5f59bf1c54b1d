use rust_util_tools::Card;
use rust_util_tools::CurrentScreen;
use rust_util_tools::FileExplorerState;
use rust_util_tools::FuzzyMatcher;
use rust_util_tools::LearningSet;
use rust_util_tools::LearningState;
use rust_util_tools::MatchResult;
use rust_util_tools::scoring::HighScoreManager;
use rust_util_tools::scoring::accuracy_counts;
use rust_util_tools::scoring::is_typing_error;
use rust_util_tools::ui_state::menu_cursor_down;
use rust_util_tools::ui_state::menu_cursor_up;

#[test]
fn test_menu_cursor_wraps() {
    assert_eq!(menu_cursor_up(2, 5), 1);
    assert_eq!(menu_cursor_up(0, 5), 4);
    assert_eq!(menu_cursor_down(2, 5), 3);
    assert_eq!(menu_cursor_down(4, 5), 0);
}

#[test]
fn test_file_explorer_selection() {
    let mut state = FileExplorerState::new("/tmp");
    assert_eq!(state.current_dir, "/tmp");
    assert_eq!(state.selected_index, 0);

    state.files = vec!["a".to_string(), "b".to_string(), "c".to_string()];
    state.select_up();
    assert_eq!(state.selected_index, 0);
    state.select_down();
    state.select_down();
    assert_eq!(state.selected_index, 2);
    // The highlight stops at the last entry.
    state.select_down();
    assert_eq!(state.selected_index, 2);
    state.select_up();
    assert_eq!(state.selected_index, 1);
}

fn one_card_set() -> LearningSet {
    LearningSet {
        name: "Bio".to_string(),
        description: String::new(),
        cards: vec![Card {
            front: "What is photosynthesis?".to_string(),
            back: "Light to energy".to_string(),
            tags: vec![],
            explanation: None,
        }],
        questions: vec![],
        tags: vec![],
    }
}

#[test]
fn test_learning_state_typing() {
    let mut state = LearningState::default();
    state.type_char('h');
    state.type_char('i');
    assert_eq!(state.user_input, "hi");
    state.backspace();
    assert_eq!(state.user_input, "h");
    state.backspace();
    state.backspace();
    assert_eq!(state.user_input, "");
}

#[test]
fn test_learning_state_submit_and_advance() {
    let mut state = LearningState::default();
    state.set = Some(one_card_set());
    for c in "light to energy".chars() {
        state.type_char(c);
    }
    let matcher = FuzzyMatcher::new(850000, 100000);
    state.submit_answer(&matcher);
    assert!(state.show_back);
    assert_eq!(
        state.match_result,
        Some(MatchResult::AutoCorrect { score: 1000000 })
    );

    // While the back is shown, typing is ignored.
    state.type_char('x');
    assert_eq!(state.user_input, "light to energy");

    state.advance_card();
    assert_eq!(state.current_card_index, 1);
    assert_eq!(state.user_input, "");
    assert!(!state.show_back);
    assert!(state.match_result.is_none());

    // No card at index 1: submitting changes nothing.
    state.submit_answer(&matcher);
    assert!(!state.show_back);
    assert!(state.match_result.is_none());
}

#[test]
fn test_current_screen_values() {
    let screen = CurrentScreen::Menu;
    assert_eq!(screen, CurrentScreen::Menu);
    assert_ne!(screen, CurrentScreen::Settings);
}

#[test]
fn test_accuracy_counts() {
    assert_eq!(accuracy_counts("hello", "hello"), (5, 5));
    assert_eq!(accuracy_counts("hello", "hallo"), (4, 5));
    assert_eq!(accuracy_counts("hello world", "hello"), (5, 5));
    // Typing past the target counts the extra characters as typed but not
    // as correct.
    assert_eq!(accuracy_counts("hi", "hiya"), (2, 4));
    assert_eq!(accuracy_counts("", ""), (0, 0));
}

#[test]
fn test_is_typing_error() {
    assert!(!is_typing_error("hello", 0, 'h'));
    assert!(is_typing_error("hello", 0, 'x'));
    assert!(is_typing_error("hello", 5, 'h'));
}

#[test]
fn test_highscore_manager_config() {
    let manager = HighScoreManager::new("data/highscores.json", 10);
    assert_eq!(manager.file_path, "data/highscores.json");
    assert_eq!(manager.max_scores, 10);
}
