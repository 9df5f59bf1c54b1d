use rust_util_tools::FuzzyMatcher;
use rust_util_tools::MatchResult;

#[test]
fn test_exact_match() {
    let matcher = FuzzyMatcher::new(850000, 100000);
    let result = matcher.check_answer("hello", "hello");

    assert_eq!(result, MatchResult::AutoCorrect { score: 1000000 });
}

#[test]
fn test_case_insensitive() {
    let matcher = FuzzyMatcher::new(850000, 100000);
    let result = matcher.check_answer("HELLO", "hello");

    assert_eq!(result, MatchResult::AutoCorrect { score: 1000000 });
}

#[test]
fn test_close_match() {
    let matcher = FuzzyMatcher::new(850000, 100000);
    let result = matcher.check_answer("photosynthesis", "photosynthesys");

    // Should be high similarity (typo in last few chars)
    match result {
        MatchResult::AutoCorrect { score } | MatchResult::NeedsUserDecision { score, .. } => {
            assert!(score > 850000);
        }
        _ => panic!("Expected high similarity"),
    }
}

#[test]
fn test_very_different() {
    let matcher = FuzzyMatcher::new(850000, 100000);
    let result = matcher.check_answer("cat", "photosynthesis");

    match result {
        MatchResult::AutoIncorrect { score } => {
            assert!(score < 750000);
        }
        _ => panic!("Expected auto-incorrect"),
    }
}

#[test]
fn test_similarity_method() {
    let matcher = FuzzyMatcher::new(850000, 100000);

    assert_eq!(matcher.similarity("hello", "hello"), 1000000);
    assert!(matcher.similarity("hello", "hallo") > 800000);
    assert!(matcher.similarity("cat", "dog") < 500000);
}

#[test]
fn test_whitespace_handling() {
    let matcher = FuzzyMatcher::new(850000, 100000);
    let result = matcher.check_answer("  hello  ", "hello");

    assert_eq!(result, MatchResult::AutoCorrect { score: 1000000 });
}

#[test]
fn test_threshold_partition_bands() {
    let matcher = FuzzyMatcher::new(850000, 100000);
    // The verdict on a non-equal pair must agree with the band its own
    // similarity score falls in: accept at or above 950000 ppm, reject
    // below 750000 ppm, ask the user in between.
    let pairs = [
        ("photosynthesis", "photosynthesys"),
        ("photosynthesis", "fotosinthesis"),
        ("hello", "hallo"),
        ("cat", "dog"),
        ("kitten", "sitting"),
    ];
    for (a, b) in pairs {
        let score = matcher.similarity(a, b);
        let verdict = matcher.check_answer(a, b);
        match verdict {
            MatchResult::AutoCorrect { score: s } => {
                assert_eq!(s, score);
                assert!(score >= 950000);
            }
            MatchResult::AutoIncorrect { score: s } => {
                assert_eq!(s, score);
                assert!(score < 750000);
            }
            MatchResult::NeedsUserDecision { score: s, user_input, correct_answer } => {
                assert_eq!(s, score);
                assert!((750000..950000).contains(&score));
                assert_eq!(user_input, a);
                assert_eq!(correct_answer, b);
            }
        }
    }
}

#[test]
fn test_needs_user_decision_keeps_originals() {
    // A pair inside the decision band hands back the original, untrimmed
    // strings.
    let matcher = FuzzyMatcher::new(850000, 100000);
    let a = "  hallo  ";
    let b = "hello";
    let score = matcher.similarity(a, b);
    assert!((750000..950000).contains(&score));
    match matcher.check_answer(a, b) {
        MatchResult::NeedsUserDecision { score: s, user_input, correct_answer } => {
            assert_eq!(s, score);
            assert_eq!(user_input, "  hallo  ");
            assert_eq!(correct_answer, "hello");
        }
        other => panic!("Expected a user decision, got {:?}", other),
    }
}

#[test]
fn test_out_of_range_config_is_clamped() {
    // A threshold above the scale clamps to the scale: only a full match
    // passes is_similar.
    let strict = FuzzyMatcher::new(2000000, 0);
    assert!(strict.is_similar("hello", "hello"));
    assert!(!strict.is_similar("hello", "hallo"));

    // A zero threshold accepts anything.
    let lax = FuzzyMatcher::new(0, 0);
    assert!(lax.is_similar("cat", "dog"));
}

#[test]
fn test_default_matcher() {
    let matcher = FuzzyMatcher::default();
    assert_eq!(
        matcher.check_answer("hello", "hello"),
        MatchResult::AutoCorrect { score: 1000000 }
    );
    // The default threshold of 850000 with margin 100000 rejects a
    // completely different pair outright.
    match matcher.check_answer("cat", "photosynthesis") {
        MatchResult::AutoIncorrect { .. } => {}
        other => panic!("Expected auto-incorrect, got {:?}", other),
    }
}

#[test]
fn test_is_similar_threshold() {
    let matcher = FuzzyMatcher::new(850000, 100000);
    assert!(matcher.is_similar("hello", "hello"));
    assert!(matcher.is_similar("Hello ", "hello"));
    assert!(!matcher.is_similar("cat", "dog"));
}
