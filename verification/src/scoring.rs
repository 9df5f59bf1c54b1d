//! Scoring support for typing tests: the character-accuracy counts a test
//! result is computed from, the per-keystroke error check, and the
//! highscore manager's configuration. Turning counts and durations into
//! words-per-minute figures, and persisting highscores, is the caller's
//! business.

use vstd::prelude::*;
use vstd::string::StrSliceExecFns;

verus! {

/// How many of the first `k` typed characters agree with the target text at
/// the same position.
pub open spec fn spec_matching_count(target: Seq<char>, typed: Seq<char>, k: int) -> int
    decreases k,
{
    if k <= 0 {
        0
    } else {
        spec_matching_count(target, typed, k - 1) + if typed[k - 1] == target[k - 1] {
            1int
        } else {
            0int
        }
    }
}

/// The number of positions compared between target and typed text: however
/// many characters both have.
pub open spec fn spec_compared_len(target: Seq<char>, typed: Seq<char>) -> int {
    if typed.len() <= target.len() {
        typed.len() as int
    } else {
        target.len() as int
    }
}

/// Character accuracy of a typing test: how many typed characters match the
/// target at their position, and how many characters were typed in all.
pub fn accuracy_counts(target: &str, typed: &str) -> (r: (usize, usize))
    ensures
        r.0 == spec_matching_count(target@, typed@, spec_compared_len(target@, typed@)),
        r.1 == typed@.len(),
        r.0 <= r.1,
{
    let target_len = target.unicode_len();
    let typed_len = typed.unicode_len();
    let compared = if typed_len <= target_len {
        typed_len
    } else {
        target_len
    };
    let mut correct: usize = 0;
    let mut i: usize = 0;
    while i < compared
        invariant
            i <= compared,
            target_len == target@.len(),
            typed_len == typed@.len(),
            compared == spec_compared_len(target@, typed@),
            correct == spec_matching_count(target@, typed@, i as int),
            correct <= i,
        decreases compared - i,
    {
        if typed.get_char(i) == target.get_char(i) {
            correct = correct + 1;
        }
        i += 1;
    }
    (correct, typed_len)
}

/// Whether typing character `c` at position `idx` counts as an error: it
/// does when the position is past the end of the target, or the target
/// holds a different character there.
pub fn is_typing_error(target: &str, idx: usize, c: char) -> (r: bool)
    ensures
        r == (idx >= target@.len() || target@[idx as int] != c),
{
    let len = target.unicode_len();
    if idx >= len {
        true
    } else {
        target.get_char(idx) != c
    }
}

/// Highscore manager configuration: where the scores live and how many are
/// kept. Loading and saving the score file is the caller's business.
pub struct HighScoreManager {
    /// Path of the highscores file
    pub file_path: String,
    /// Maximum number of scores to keep
    pub max_scores: usize,
}

impl HighScoreManager {
    /// Create a new highscore manager for the given file, keeping at most
    /// `max_scores` entries.
    pub fn new(file_path: &str, max_scores: usize) -> (r: Self)
        ensures
            r.file_path@ == file_path@,
            r.max_scores == max_scores,
    {
        HighScoreManager { file_path: file_path.to_owned(), max_scores }
    }
}

} // verus!
