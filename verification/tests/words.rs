use rust_util_tools::Difficulty;
use rust_util_tools::EnglishWord;
use rust_util_tools::GermanWord;
use rust_util_tools::Language;
use rust_util_tools::UtilError;
use rust_util_tools::WordLoader;
use rust_util_tools::words::extract_english_words;
use rust_util_tools::words::join_words;
use rust_util_tools::words::normalize_german_words;

#[test]
fn test_word_loader_creation() {
    let loader = WordLoader::new("data");
    assert_eq!(loader.data_dir, "data");
}

#[test]
fn test_filter_by_length() {
    let loader = WordLoader::new("data");
    let mut words = vec![
        "cat".to_string(),
        "dog".to_string(),
        "elephant".to_string(),
        "a".to_string(),
    ];

    loader
        .filter_words(&mut words, Language::English, Difficulty::Easy)
        .unwrap();

    // Easy difficulty has max_length of 6
    assert!(words.iter().all(|w| w.len() <= 6));
    assert!(!words.contains(&"elephant".to_string()));
}

#[test]
fn test_filter_drops_empty_words() {
    let loader = WordLoader::new("data");
    let mut words = vec![String::new(), "owl".to_string(), String::new()];
    loader
        .filter_words(&mut words, Language::English, Difficulty::Easy)
        .unwrap();
    assert_eq!(words, vec!["owl".to_string()]);
}

#[test]
fn test_filter_counts_bytes_not_chars() {
    let loader = WordLoader::new("data");
    // "Straße" is six characters but seven bytes, so it passes the medium
    // cap of nine bytes and fails the easy cap of six.
    let mut medium = vec!["Straße".to_string()];
    loader
        .filter_words(&mut medium, Language::German, Difficulty::Medium)
        .unwrap();
    assert_eq!(medium.len(), 1);

    let mut easy = vec!["Straße".to_string()];
    let result = loader.filter_words(&mut easy, Language::German, Difficulty::Easy);
    assert!(result.is_err());
    assert!(easy.is_empty());
}

#[test]
fn test_filter_error_names_language_and_difficulty() {
    let loader = WordLoader::new("data");
    let mut words = vec!["unreasonably-long-word".to_string()];
    let err = loader
        .filter_words(&mut words, Language::English, Difficulty::Easy)
        .unwrap_err();
    assert_eq!(
        err,
        UtilError::NoMatchingWords {
            language: "English".to_string(),
            difficulty: "Einfach/Easy".to_string(),
        }
    );
    assert_eq!(
        err.message(),
        "No words match the criteria (language: English, difficulty: Einfach/Easy)"
    );
}

#[test]
fn test_select_random_words() {
    let loader = WordLoader::new("data");
    let words = vec![
        "alpha".to_string(),
        "beta".to_string(),
        "gamma".to_string(),
        "delta".to_string(),
    ];
    let selected = loader.select_random_words(words.clone(), 2);
    assert_eq!(selected.len(), 2);
    for w in &selected {
        assert!(words.contains(w));
    }

    // Asking for more than there are returns them all.
    let all = loader.select_random_words(words.clone(), 10);
    assert_eq!(all.len(), 4);
    for w in &words {
        assert!(all.contains(w));
    }
}

#[test]
fn test_join_words() {
    assert_eq!(join_words(&vec![]), "");
    assert_eq!(join_words(&vec!["one".to_string()]), "one");
    assert_eq!(
        join_words(&vec!["one".to_string(), "two".to_string(), "three".to_string()]),
        "one two three"
    );
}

#[test]
fn test_extract_english_words() {
    let entries = vec![
        EnglishWord {
            word: "house".to_string(),
            useful_for_flashcard: true,
            cefr_level: "A1".to_string(),
            pos: "noun".to_string(),
            word_frequency: 100,
        },
        EnglishWord {
            word: "run".to_string(),
            useful_for_flashcard: false,
            cefr_level: "A1".to_string(),
            pos: "verb".to_string(),
            word_frequency: 90,
        },
    ];
    assert_eq!(
        extract_english_words(&entries),
        vec!["house".to_string(), "run".to_string()]
    );
}

#[test]
fn test_normalize_german_words() {
    let entries = vec![
        GermanWord {
            word: "Haus".to_string(),
            useful_for_flashcard: true,
            cefr_level: "A1".to_string(),
            pos: "noun".to_string(),
            word_frequency: 100,
            capitalization_sensitive: true,
        },
        GermanWord {
            word: "Laufen".to_string(),
            useful_for_flashcard: false,
            cefr_level: "A2".to_string(),
            pos: "verb".to_string(),
            word_frequency: 80,
            capitalization_sensitive: false,
        },
    ];
    // A capitalization-sensitive noun keeps its case; other words fold to
    // lowercase.
    assert_eq!(
        normalize_german_words(&entries),
        vec!["Haus".to_string(), "laufen".to_string()]
    );
}
