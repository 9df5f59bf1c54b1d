use rust_util_tools::UtilError;
use rust_util_tools::parsers::parse_cards_from_csv;
use rust_util_tools::parsers::parse_cards_from_markdown;

#[test]
fn test_load_from_csv() {
    let lines = vec![
        "front,back,tags".to_string(),
        "\"Q1\",\"A1\",\"tag1;tag2\"".to_string(),
        "\"Q2\",\"A2\",\"\"".to_string(),
    ];

    let set = parse_cards_from_csv(&lines, "Test").unwrap();
    assert_eq!(set.cards.len(), 2);
    assert_eq!(set.cards[0].tags.len(), 2);
}

#[test]
fn test_csv_fields_and_tags() {
    let lines = vec![
        "front,back,tags".to_string(),
        "\"What is DNA?\",\"Deoxyribonucleic acid\",\"biology;genetics\"".to_string(),
        "Capital of France? , Paris ".to_string(),
    ];
    let set = parse_cards_from_csv(&lines, "Science").unwrap();
    assert_eq!(set.name, "Science");
    assert_eq!(set.cards.len(), 2);
    assert_eq!(set.cards[0].front, "What is DNA?");
    assert_eq!(set.cards[0].back, "Deoxyribonucleic acid");
    assert_eq!(
        set.cards[0].tags,
        vec!["biology".to_string(), "genetics".to_string()]
    );
    // Unquoted fields are trimmed; a two-field row has no tags.
    assert_eq!(set.cards[1].front, "Capital of France?");
    assert_eq!(set.cards[1].back, "Paris");
    assert!(set.cards[1].tags.is_empty());
    assert!(set.questions.is_empty());
}

#[test]
fn test_csv_row_with_missing_field() {
    let lines = vec![
        "front,back".to_string(),
        "\"Q1\",\"A1\"".to_string(),
        "just-one-field".to_string(),
    ];
    let err = parse_cards_from_csv(&lines, "Broken").unwrap_err();
    assert_eq!(err, UtilError::InvalidCsvRow { line_number: 3 });
}

#[test]
fn test_csv_without_data_rows() {
    let lines = vec!["front,back,tags".to_string()];
    let err = parse_cards_from_csv(&lines, "Empty").unwrap_err();
    assert_eq!(err, UtilError::NoCardsFound);

    let no_lines: Vec<String> = vec![];
    let err = parse_cards_from_csv(&no_lines, "Empty").unwrap_err();
    assert_eq!(err, UtilError::NoCardsFound);
}

#[test]
fn test_markdown_cards() {
    let lines = vec![
        "# Learning Set Name".to_string(),
        String::new(),
        "## Card 1".to_string(),
        "**Front:** What is photosynthesis?".to_string(),
        "**Back:** Process by which plants convert light into energy".to_string(),
        String::new(),
        "## Card 2".to_string(),
        "**Front:** What is the capital of France?".to_string(),
        "**Back:** Paris".to_string(),
    ];
    let set = parse_cards_from_markdown(&lines).unwrap();
    assert_eq!(set.name, "Learning Set Name");
    assert_eq!(set.cards.len(), 2);
    assert_eq!(set.cards[0].front, "What is photosynthesis?");
    assert_eq!(
        set.cards[0].back,
        "Process by which plants convert light into energy"
    );
    assert_eq!(set.cards[1].front, "What is the capital of France?");
    assert_eq!(set.cards[1].back, "Paris");
}

#[test]
fn test_markdown_bare_markers_and_default_name() {
    let lines = vec![
        "Front: Q".to_string(),
        "Back: A".to_string(),
    ];
    let set = parse_cards_from_markdown(&lines).unwrap();
    assert_eq!(set.name, "Unnamed Set");
    assert_eq!(set.cards.len(), 1);
    assert_eq!(set.cards[0].front, "Q");
    assert_eq!(set.cards[0].back, "A");
}

#[test]
fn test_markdown_back_without_front_is_ignored() {
    let lines = vec![
        "# Notes".to_string(),
        "**Back:** orphaned".to_string(),
        "plain text".to_string(),
    ];
    let err = parse_cards_from_markdown(&lines).unwrap_err();
    assert_eq!(err, UtilError::NoCardsFound);
}
