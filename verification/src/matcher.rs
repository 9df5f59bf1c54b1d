//! Fuzzy string matching for answer validation.
//!
//! A typed answer is accepted, rejected, or referred to the user, based on a
//! Jaro-Winkler similarity score and a configurable threshold with a decision
//! margin around it. Scores are integers in parts per million of a full
//! match, so a score of 1000000 means the strings agree exactly.

use vstd::prelude::*;

verus! {

/// A full match, in parts per million: the top of the score range.
pub const SCORE_SCALE: u32 = 1000000;

/// The largest accepted decision margin: half the score range.
pub const MARGIN_LIMIT: u32 = 500000;

/// What `str::trim` returns: the string without surrounding whitespace.
pub uninterp spec fn trim_of(s: Seq<char>) -> Seq<char>;

/// What `str::to_lowercase` returns: the Unicode lowercase form.
pub uninterp spec fn lower_of(s: Seq<char>) -> Seq<char>;

/// What the Jaro-Winkler similarity of two strings is, scaled to parts per
/// million of a full match.
pub uninterp spec fn similarity_ppm(a: Seq<char>, b: Seq<char>) -> u32;

/// The comparison form both sides of an answer check are put into first:
/// surrounding whitespace trimmed, then folded to lowercase.
pub open spec fn norm_of(s: Seq<char>) -> Seq<char> {
    lower_of(trim_of(s))
}

/// Relies on str::trim: returns the input without leading and trailing
/// whitespace, a result that depends on the characters alone.
#[verifier::external_body]
pub(crate) fn trimmed<'a>(s: &'a str) -> (r: &'a str)
    ensures
        r@ == trim_of(s@),
{
    s.trim()
}

/// Relies on str::to_lowercase: returns the Unicode lowercase form of the
/// input, a result that depends on the characters alone.
#[verifier::external_body]
pub(crate) fn lowercase(s: &str) -> (r: String)
    ensures
        r@ == lower_of(s@),
{
    s.to_lowercase()
}

/// Relies on strsim::jaro_winkler: the Jaro-Winkler similarity of the two
/// strings, a value in [0, 1] that depends on the characters alone, and 1.0
/// exactly when the strings are equal. The body renders the value with six
/// digits after the decimal point and drops the point, which converts it one
/// for one into parts per million.
#[verifier::external_body]
fn similarity_scaled(a: &str, b: &str) -> (r: u32)
    ensures
        r == similarity_ppm(a@, b@),
        r <= SCORE_SCALE,
        a@ == b@ ==> r == SCORE_SCALE,
{
    let fixed = format!("{:.6}", strsim::jaro_winkler(a, b));
    fixed.replace('.', "").parse::<u32>().unwrap_or(0)
}

/// Result of a fuzzy match comparison. Scores are in parts per million of a
/// full match.
#[derive(Debug, Clone, PartialEq)]
pub enum MatchResult {
    /// Answer is automatically accepted (score at or above the upper bound)
    AutoCorrect { score: u32 },
    /// Answer is automatically rejected (score below the lower bound)
    AutoIncorrect { score: u32 },
    /// User needs to decide (score inside the decision band)
    NeedsUserDecision { score: u32, user_input: String, correct_answer: String },
}

/// Fuzzy matcher with a configurable threshold, both bounds in parts per
/// million of a full match.
pub struct FuzzyMatcher {
    /// Threshold for automatic acceptance
    threshold: u32,
    /// Margin around the threshold where a user decision is needed
    decision_margin: u32,
}

impl FuzzyMatcher {
    /// The configured acceptance threshold.
    pub closed spec fn spec_threshold(self) -> u32 {
        self.threshold
    }

    /// The configured decision margin.
    pub closed spec fn spec_margin(self) -> u32 {
        self.decision_margin
    }

    /// Both configuration values are inside their recognized ranges.
    pub open spec fn wf(self) -> bool {
        self.spec_threshold() <= SCORE_SCALE && self.spec_margin() <= MARGIN_LIMIT
    }

    /// Scores at or above this bound are accepted outright.
    pub open spec fn upper_bound(self) -> int {
        self.spec_threshold() + self.spec_margin()
    }

    /// Scores below this bound are rejected outright; never below zero.
    pub open spec fn lower_bound(self) -> int {
        if self.spec_threshold() >= self.spec_margin() {
            self.spec_threshold() - self.spec_margin()
        } else {
            0
        }
    }

    /// Whether a score is high enough to accept without asking.
    pub open spec fn accepts(self, score: u32) -> bool {
        score >= self.upper_bound()
    }

    /// Whether a score is low enough to reject without asking.
    pub open spec fn rejects(self, score: u32) -> bool {
        score < self.lower_bound()
    }

    /// Create a new fuzzy matcher. Out-of-range values are clamped into
    /// range, never rejected.
    pub fn new(threshold: u32, decision_margin: u32) -> (r: Self)
        ensures
            r.wf(),
            r.spec_threshold() == if threshold <= SCORE_SCALE {
                threshold
            } else {
                SCORE_SCALE
            },
            r.spec_margin() == if decision_margin <= MARGIN_LIMIT {
                decision_margin
            } else {
                MARGIN_LIMIT
            },
    {
        let t = if threshold <= SCORE_SCALE {
            threshold
        } else {
            SCORE_SCALE
        };
        let m = if decision_margin <= MARGIN_LIMIT {
            decision_margin
        } else {
            MARGIN_LIMIT
        };
        FuzzyMatcher { threshold: t, decision_margin: m }
    }

    /// What `check_answer` promises of its verdict `r` for the given
    /// original inputs: equal normalized forms are accepted outright with a
    /// full score, and otherwise the similarity score of the normalized
    /// forms decides between acceptance, rejection, and handing the
    /// original strings back for the user to decide.
    pub open spec fn spec_verdict(self, user: Seq<char>, correct: Seq<char>, r: MatchResult) -> bool {
        &&& norm_of(user) == norm_of(correct) ==> r == (MatchResult::AutoCorrect {
            score: SCORE_SCALE,
        })
        &&& norm_of(user) != norm_of(correct) ==> ({
            let score = similarity_ppm(norm_of(user), norm_of(correct));
            &&& self.accepts(score) ==> r == (MatchResult::AutoCorrect { score })
            &&& self.rejects(score) ==> r == (MatchResult::AutoIncorrect { score })
            &&& !self.accepts(score) && !self.rejects(score) ==> (r matches MatchResult::NeedsUserDecision {
                score: sc,
                user_input: ui,
                correct_answer: ca,
            } && sc == score && ui@ == user && ca@ == correct)
        })
    }

    /// Check a user's answer against the correct answer.
    ///
    /// Both sides are trimmed and folded to lowercase; equal forms are
    /// accepted outright with a full score. Otherwise the similarity score
    /// decides: at or above the upper bound the answer is accepted, below
    /// the lower bound it is rejected, and inside the band the original,
    /// untrimmed strings are handed back for the user to decide.
    pub fn check_answer(&self, user_input: &str, correct_answer: &str) -> (r: MatchResult)
        requires
            self.wf(),
        ensures
            self.spec_verdict(user_input@, correct_answer@, r),
    {
        let user_normalized = lowercase(trimmed(user_input));
        let correct_normalized = lowercase(trimmed(correct_answer));
        if user_normalized == correct_normalized {
            return MatchResult::AutoCorrect { score: SCORE_SCALE };
        }
        let score = similarity_scaled(user_normalized.as_str(), correct_normalized.as_str());
        let upper_bound = self.threshold + self.decision_margin;
        let lower_bound = if self.threshold >= self.decision_margin {
            self.threshold - self.decision_margin
        } else {
            0
        };
        if score >= upper_bound {
            MatchResult::AutoCorrect { score }
        } else if score < lower_bound {
            MatchResult::AutoIncorrect { score }
        } else {
            MatchResult::NeedsUserDecision {
                score,
                user_input: user_input.to_owned(),
                correct_answer: correct_answer.to_owned(),
            }
        }
    }

    /// The raw similarity score of the two strings after normalization, in
    /// parts per million.
    pub fn similarity(&self, a: &str, b: &str) -> (r: u32)
        ensures
            r == similarity_ppm(norm_of(a@), norm_of(b@)),
            r <= SCORE_SCALE,
            norm_of(a@) == norm_of(b@) ==> r == SCORE_SCALE,
    {
        let a_norm = lowercase(trimmed(a));
        let b_norm = lowercase(trimmed(b));
        similarity_scaled(a_norm.as_str(), b_norm.as_str())
    }

    /// Whether two strings score at or above the acceptance threshold.
    pub fn is_similar(&self, a: &str, b: &str) -> (r: bool)
        ensures
            r == (similarity_ppm(norm_of(a@), norm_of(b@)) >= self.spec_threshold()),
    {
        self.similarity(a, b) >= self.threshold
    }
}

impl Default for FuzzyMatcher {
    /// The default configuration: a threshold of 850000 ppm with a margin
    /// of 100000 ppm.
    fn default() -> (r: Self)
        ensures
            r.wf(),
            r.spec_threshold() == 850000,
            r.spec_margin() == 100000,
    {
        FuzzyMatcher::new(850000, 100000)
    }
}

/// Threshold partition: with the default threshold of 850000 ppm and margin
/// of 100000 ppm, a score of at least 950000 ppm is accepted outright, one
/// below 750000 ppm is rejected outright, and exactly the scores from 750000
/// up to but not including 950000 are referred to the user.
pub proof fn lemma_threshold_partition(m: FuzzyMatcher, score: u32)
    requires
        m.spec_threshold() == 850000,
        m.spec_margin() == 100000,
    ensures
        m.accepts(score) <==> score >= 950000,
        m.rejects(score) <==> score < 750000,
        (!m.accepts(score) && !m.rejects(score)) <==> (750000 <= score < 950000),
{
}

} // verus!
