use rust_util_tools::CefrLevel;
use rust_util_tools::Difficulty;
use rust_util_tools::Language;

#[test]
fn test_language_from_str() {
    assert_eq!("de".parse::<Language>().unwrap(), Language::German);
    assert_eq!("en".parse::<Language>().unwrap(), Language::English);
    assert_eq!("German".parse::<Language>().unwrap(), Language::German);
    assert!("fr".parse::<Language>().is_err());
}

#[test]
fn test_difficulty_from_str() {
    assert_eq!("easy".parse::<Difficulty>().unwrap(), Difficulty::Easy);
    assert_eq!("2".parse::<Difficulty>().unwrap(), Difficulty::Medium);
    assert_eq!("schwer".parse::<Difficulty>().unwrap(), Difficulty::Hard);
}

#[test]
fn test_difficulty_word_count() {
    assert_eq!(Difficulty::Easy.word_count(), 15);
    assert_eq!(Difficulty::Medium.word_count(), 30);
    assert_eq!(Difficulty::Hard.word_count(), 50);
}

#[test]
fn test_language_accessors() {
    assert_eq!(Language::German.code(), "de");
    assert_eq!(Language::English.code(), "en");
    assert_eq!(Language::German.name(), "Deutsch");
    assert_eq!(Language::English.name(), "English");
    assert_eq!(Language::German.word_file(), "german_words.json");
    assert_eq!(Language::English.word_file(), "english_words.json");
}

#[test]
fn test_language_parse_native_names() {
    assert_eq!("Deutsch".parse::<Language>().unwrap(), Language::German);
    assert_eq!("ENGLISH".parse::<Language>().unwrap(), Language::English);
    let err = "klingon".parse::<Language>().unwrap_err();
    assert_eq!(err, "Unknown language: klingon");
}

#[test]
fn test_difficulty_accessors() {
    assert_eq!(Difficulty::Easy.max_word_length(), 6);
    assert_eq!(Difficulty::Medium.max_word_length(), 9);
    assert_eq!(Difficulty::Hard.max_word_length(), 15);
    assert_eq!(Difficulty::Easy.allowed_cefr_levels(), vec!["A1", "A2"]);
    assert_eq!(Difficulty::Medium.allowed_cefr_levels(), vec!["A2", "B1", "B2"]);
    assert_eq!(Difficulty::Hard.allowed_cefr_levels(), vec!["B2", "C1", "C2"]);
    assert_eq!(
        Difficulty::Easy.description(),
        "Einfach/Easy - 15 Wörter (A1-A2 Niveau)"
    );
    assert_eq!(Difficulty::Medium.display_name(), "Mittel/Medium");
}

#[test]
fn test_difficulty_parse_errors() {
    let err = "impossible".parse::<Difficulty>().unwrap_err();
    assert_eq!(err, "Unknown difficulty: impossible");
}

#[test]
fn test_cefr_level_from_str() {
    assert_eq!("A1".parse::<CefrLevel>().unwrap(), CefrLevel::A1);
    assert_eq!("b2".parse::<CefrLevel>().unwrap(), CefrLevel::B2);
    assert_eq!("c2".parse::<CefrLevel>().unwrap(), CefrLevel::C2);
    assert!("D1".parse::<CefrLevel>().is_err());
    assert!(CefrLevel::A1 < CefrLevel::C2);
}
