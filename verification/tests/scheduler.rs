use rust_util_tools::LeitnerBox;

#[test]
fn test_leitner_basic() {
    let mut leitner = LeitnerBox::new(5, 10);

    // All items start in box 0
    assert_eq!(leitner.get_item_box(0), Some(0));
    assert_eq!(leitner.get_box_counts()[0], 10);
    leitner.answer_correct(0);
}

#[test]
fn test_correct_answer_progression() {
    let mut leitner = LeitnerBox::new(5, 10);

    // Answer item 0 correctly
    leitner.answer_correct(0);
    assert_eq!(leitner.get_item_box(0), Some(1));

    // Answer again
    leitner.answer_correct(0);
    assert_eq!(leitner.get_item_box(0), Some(2));
}

#[test]
fn test_incorrect_answer_reset() {
    let mut leitner = LeitnerBox::new(5, 10);

    // Move item to box 2
    leitner.answer_correct(0);
    leitner.answer_correct(0);
    assert_eq!(leitner.get_item_box(0), Some(2));

    // Answer incorrectly - should go back to box 0
    leitner.answer_incorrect(0);
    assert_eq!(leitner.get_item_box(0), Some(0));
}

#[test]
fn test_get_next_item() {
    let mut leitner = LeitnerBox::new(5, 10);

    // Move some items to different boxes
    leitner.answer_correct(0);
    leitner.answer_correct(1);
    leitner.answer_correct(1);

    // Next item should be from box 0 (lowest priority)
    let next = leitner.get_next_item().unwrap();
    assert!(next >= 2); // Items 0 and 1 are in higher boxes
}

#[test]
fn test_mastery() {
    let mut leitner = LeitnerBox::new(3, 5);

    // Move all items to last box
    for i in 0..5 {
        leitner.answer_correct(i);
        leitner.answer_correct(i);
    }

    assert!(leitner.all_mastered());

    let summary = leitner.summary();
    assert_eq!(summary.mastered_items, 5);
    assert_eq!(summary.mastery_percentage(), 100);
}

#[test]
fn test_reset() {
    let mut leitner = LeitnerBox::new(5, 10);

    // Move some items
    leitner.answer_correct(0);
    leitner.answer_correct(1);

    // Reset
    leitner.reset();

    // All items should be back in box 0
    assert_eq!(leitner.get_box_counts()[0], 10);
    for i in 0..10 {
        assert_eq!(leitner.get_item_box(i), Some(0));
    }
}

#[test]
fn test_total_conservation_through_transitions() {
    let mut leitner = LeitnerBox::new(4, 7);
    let moves: [(bool, usize); 10] = [
        (true, 0),
        (true, 3),
        (false, 0),
        (true, 6),
        (true, 6),
        (true, 6),
        (false, 3),
        (true, 1),
        (true, 2),
        (false, 2),
    ];
    for (correct, id) in moves {
        if correct {
            leitner.answer_correct(id);
        } else {
            leitner.answer_incorrect(id);
        }
        let total: usize = leitner.get_box_counts().iter().sum();
        assert_eq!(total, 7);
        assert_eq!(leitner.remaining_items(), 7);
    }
}

#[test]
fn test_mastered_item_stays_in_last_box() {
    let mut leitner = LeitnerBox::new(3, 2);
    leitner.answer_correct(0);
    leitner.answer_correct(0);
    assert_eq!(leitner.get_item_box(0), Some(2));
    for _ in 0..4 {
        leitner.answer_correct(0);
        assert_eq!(leitner.get_item_box(0), Some(2));
    }
}

#[test]
fn test_out_of_range_id_is_ignored() {
    let mut leitner = LeitnerBox::new(5, 3);
    leitner.answer_correct(99);
    leitner.answer_incorrect(99);
    assert_eq!(leitner.get_item_box(99), None);
    assert_eq!(leitner.get_box_counts()[0], 3);
    assert_eq!(leitner.remaining_items(), 3);
}

#[test]
fn test_empty_scheduler() {
    let leitner = LeitnerBox::new(3, 0);
    assert_eq!(leitner.get_next_item(), None);
    assert_eq!(leitner.remaining_items(), 0);
    assert!(leitner.all_mastered());
    let summary = leitner.summary();
    assert_eq!(summary.total_items, 0);
    assert_eq!(summary.mastery_percentage(), 0);
}

#[test]
fn test_next_item_fifo_within_box() {
    let mut leitner = LeitnerBox::new(3, 4);
    // Re-enqueue item 0 at the back of box 0 by answering it incorrectly.
    leitner.answer_incorrect(0);
    // Box 0 is now 1, 2, 3, 0 in queue order.
    assert_eq!(leitner.get_next_item(), Some(1));
    leitner.answer_correct(1);
    assert_eq!(leitner.get_next_item(), Some(2));
}

#[test]
fn test_summary_counts() {
    let mut leitner = LeitnerBox::new(3, 3);
    leitner.answer_correct(0);
    leitner.answer_correct(0);
    let summary = leitner.summary();
    assert_eq!(summary.total_items, 3);
    assert_eq!(summary.mastered_items, 1);
    assert_eq!(summary.in_progress_items, 2);
    assert_eq!(summary.box_counts, vec![2, 0, 1]);
    assert_eq!(summary.mastery_percentage(), 33);
}
