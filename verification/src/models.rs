//! Data models for the learning system: flashcards, quiz questions,
//! learning sets, and per-session statistics.

use vstd::prelude::*;
use rand::seq::SliceRandom;

verus! {

/// A flashcard with front and back sides.
#[derive(Debug, Clone)]
pub struct Card {
    /// Front side of the card (question/prompt)
    pub front: String,
    /// Back side of the card (answer)
    pub back: String,
    /// Optional tags for categorization
    pub tags: Vec<String>,
    /// Optional explanation or additional context
    pub explanation: Option<String>,
}

/// A quiz question with multiple choice or text answer.
#[derive(Debug, Clone)]
pub struct QuizQuestion {
    /// The question text
    pub question: String,
    /// The correct answer
    pub correct_answer: String,
    /// Alternative answers for multiple choice (empty for text input)
    pub alternatives: Vec<String>,
    /// Optional explanation shown after answering
    pub explanation: Option<String>,
    /// Optional tags for categorization
    pub tags: Vec<String>,
}

/// Relies on rand::seq::SliceRandom::shuffle with the thread-local
/// generator: an in-place permutation picked uniformly at random. Whatever
/// order comes back, the vector holds exactly the strings it held before.
#[verifier::external_body]
pub(crate) fn shuffle_strings(v: &mut Vec<String>)
    ensures
        final(v)@.to_multiset() == old(v)@.to_multiset(),
        final(v)@.len() == old(v)@.len(),
{
    v.shuffle(&mut rand::rng());
}

impl QuizQuestion {
    /// Whether this is a multiple choice question.
    pub fn is_multiple_choice(&self) -> (r: bool)
        ensures
            r == (self.alternatives@.len() > 0),
    {
        !self.alternatives.is_empty()
    }

    /// All answer options (correct answer plus alternatives), shuffled: the
    /// result holds exactly those strings, in some order.
    pub fn get_shuffled_options(&self) -> (r: Vec<String>)
        ensures
            r@.len() == self.alternatives@.len() + 1,
            r@.to_multiset() == self.alternatives@.push(self.correct_answer).to_multiset(),
    {
        let mut options: Vec<String> = Vec::new();
        let n = self.alternatives.len();
        let mut i: usize = 0;
        while i < n
            invariant
                i <= n,
                n == self.alternatives@.len(),
                options@ == self.alternatives@.subrange(0, i as int),
            decreases n - i,
        {
            options.push(self.alternatives[i].clone());
            proof {
                assert(options@ =~= self.alternatives@.subrange(0, i + 1));
            }
            i += 1;
        }
        proof {
            assert(self.alternatives@.subrange(0, n as int) =~= self.alternatives@);
        }
        options.push(self.correct_answer.clone());
        shuffle_strings(&mut options);
        options
    }
}

/// A collection of learning content.
#[derive(Debug, Clone)]
pub struct LearningSet {
    /// Name of the learning set
    pub name: String,
    /// Description of what this set covers
    pub description: String,
    /// Flashcards in this set
    pub cards: Vec<Card>,
    /// Quiz questions in this set
    pub questions: Vec<QuizQuestion>,
    /// Metadata tags
    pub tags: Vec<String>,
}

impl LearningSet {
    /// Total number of items (cards plus questions).
    pub fn total_items(&self) -> (r: usize)
        requires
            self.cards@.len() + self.questions@.len() <= usize::MAX,
        ensures
            r == self.cards@.len() + self.questions@.len(),
    {
        self.cards.len() + self.questions.len()
    }

    /// Whether the set holds no cards and no questions.
    pub fn is_empty(&self) -> (r: bool)
        ensures
            r == (self.cards@.len() == 0 && self.questions@.len() == 0),
    {
        self.cards.is_empty() && self.questions.is_empty()
    }
}

/// Statistics for a learning session. The counters only ever grow, one
/// reviewed item at a time, and the correct and incorrect counts always
/// add up to the total.
#[derive(Debug, Clone)]
pub struct SessionStats {
    /// Total items reviewed
    pub total_reviewed: usize,
    /// Items answered correctly
    pub correct: usize,
    /// Items answered incorrectly
    pub incorrect: usize,
    /// Items where a user override was used
    pub user_overrides: usize,
}

impl SessionStats {
    /// Correct answers as a whole-number percentage of all reviewed items,
    /// rounded down; defined as 0 before anything was reviewed.
    pub fn accuracy(&self) -> (r: u32)
        requires
            self.correct <= self.total_reviewed,
        ensures
            r == if self.total_reviewed == 0 {
                0int
            } else {
                100 * self.correct / self.total_reviewed as int
            },
    {
        if self.total_reviewed == 0 {
            return 0;
        }
        let pct: u128 = (self.correct as u128) * 100 / (self.total_reviewed as u128);
        proof {
            let m = self.correct as int;
            let t = self.total_reviewed as int;
            assert(m * 100 <= t * 100) by (nonlinear_arith)
                requires
                    m <= t,
            ;
            assert(m * 100 / t <= t * 100 / t) by (nonlinear_arith)
                requires
                    0 < t,
                    m * 100 <= t * 100,
            ;
            assert(t * 100 / t == 100) by (nonlinear_arith)
                requires
                    0 < t,
            ;
            assert(pct <= 100);
        }
        pct as u32
    }

    /// Record a correct answer.
    pub fn record_correct(&mut self)
        requires
            old(self).total_reviewed < usize::MAX,
            old(self).correct < usize::MAX,
        ensures
            final(self).total_reviewed == old(self).total_reviewed + 1,
            final(self).correct == old(self).correct + 1,
            final(self).incorrect == old(self).incorrect,
            final(self).user_overrides == old(self).user_overrides,
    {
        self.total_reviewed = self.total_reviewed + 1;
        self.correct = self.correct + 1;
    }

    /// Record an incorrect answer.
    pub fn record_incorrect(&mut self)
        requires
            old(self).total_reviewed < usize::MAX,
            old(self).incorrect < usize::MAX,
        ensures
            final(self).total_reviewed == old(self).total_reviewed + 1,
            final(self).incorrect == old(self).incorrect + 1,
            final(self).correct == old(self).correct,
            final(self).user_overrides == old(self).user_overrides,
    {
        self.total_reviewed = self.total_reviewed + 1;
        self.incorrect = self.incorrect + 1;
    }

    /// Record a user override of a fuzzy verdict, counting the answer as
    /// correct or incorrect as the user decided.
    pub fn record_override(&mut self, was_correct: bool)
        requires
            old(self).total_reviewed < usize::MAX,
            old(self).user_overrides < usize::MAX,
            was_correct ==> old(self).correct < usize::MAX,
            !was_correct ==> old(self).incorrect < usize::MAX,
        ensures
            final(self).total_reviewed == old(self).total_reviewed + 1,
            final(self).user_overrides == old(self).user_overrides + 1,
            final(self).correct == old(self).correct + if was_correct {
                1int
            } else {
                0int
            },
            final(self).incorrect == old(self).incorrect + if was_correct {
                0int
            } else {
                1int
            },
    {
        self.total_reviewed = self.total_reviewed + 1;
        self.user_overrides = self.user_overrides + 1;
        if was_correct {
            self.correct = self.correct + 1;
        } else {
            self.incorrect = self.incorrect + 1;
        }
    }
}

impl Default for SessionStats {
    /// A fresh session with every counter at zero.
    fn default() -> (r: Self)
        ensures
            r.total_reviewed == 0,
            r.correct == 0,
            r.incorrect == 0,
            r.user_overrides == 0,
    {
        SessionStats { total_reviewed: 0, correct: 0, incorrect: 0, user_overrides: 0 }
    }
}

} // verus!
