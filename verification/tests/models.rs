use rust_util_tools::LearningSet;
use rust_util_tools::QuizQuestion;
use rust_util_tools::SessionStats;

#[test]
fn test_quiz_question_multiple_choice() {
    let q = QuizQuestion {
        question: "What is 2+2?".to_string(),
        correct_answer: "4".to_string(),
        alternatives: vec!["3".to_string(), "5".to_string()],
        explanation: None,
        tags: vec![],
    };

    assert!(q.is_multiple_choice());
    let options = q.get_shuffled_options();
    assert_eq!(options.len(), 3);
    assert!(options.contains(&"4".to_string()));
}

#[test]
fn test_session_stats() {
    let mut stats = SessionStats::default();
    stats.record_correct();
    stats.record_correct();
    stats.record_incorrect();

    assert_eq!(stats.total_reviewed, 3);
    assert_eq!(stats.correct, 2);
    assert_eq!(stats.incorrect, 1);
    assert_eq!(stats.accuracy(), 66);
}

#[test]
fn test_learning_set_empty() {
    let set = LearningSet {
        name: "Test".to_string(),
        description: String::new(),
        cards: vec![],
        questions: vec![],
        tags: vec![],
    };

    assert!(set.is_empty());
    assert_eq!(set.total_items(), 0);
}

#[test]
fn test_shuffled_options_keep_all_answers() {
    let q = QuizQuestion {
        question: "Largest planet?".to_string(),
        correct_answer: "Jupiter".to_string(),
        alternatives: vec![
            "Mars".to_string(),
            "Venus".to_string(),
            "Saturn".to_string(),
        ],
        explanation: None,
        tags: vec![],
    };
    let options = q.get_shuffled_options();
    assert_eq!(options.len(), 4);
    for answer in ["Jupiter", "Mars", "Venus", "Saturn"] {
        assert!(options.contains(&answer.to_string()));
    }

    let text_only = QuizQuestion {
        question: "Capital of France?".to_string(),
        correct_answer: "Paris".to_string(),
        alternatives: vec![],
        explanation: None,
        tags: vec![],
    };
    assert!(!text_only.is_multiple_choice());
    assert_eq!(text_only.get_shuffled_options(), vec!["Paris".to_string()]);
}

#[test]
fn test_record_override() {
    let mut stats = SessionStats::default();
    stats.record_override(true);
    stats.record_override(false);
    stats.record_correct();

    assert_eq!(stats.total_reviewed, 3);
    assert_eq!(stats.user_overrides, 2);
    assert_eq!(stats.correct, 2);
    assert_eq!(stats.incorrect, 1);
}

#[test]
fn test_accuracy_with_no_reviews() {
    let stats = SessionStats::default();
    assert_eq!(stats.accuracy(), 0);
}

#[test]
fn test_learning_set_totals() {
    let set = LearningSet {
        name: "Mixed".to_string(),
        description: "cards and questions".to_string(),
        cards: vec![rust_util_tools::Card {
            front: "f".to_string(),
            back: "b".to_string(),
            tags: vec![],
            explanation: None,
        }],
        questions: vec![QuizQuestion {
            question: "q".to_string(),
            correct_answer: "a".to_string(),
            alternatives: vec![],
            explanation: None,
            tags: vec![],
        }],
        tags: vec!["test".to_string()],
    };
    assert!(!set.is_empty());
    assert_eq!(set.total_items(), 2);
}
