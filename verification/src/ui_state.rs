//! The session-facing state machines behind the user interface: which
//! screen is current, menu and file-list cursor movement, and the learning
//! session's input state. Drawing to the terminal and reading key events is
//! the caller's business; the decisions live here.

use vstd::prelude::*;
use crate::matcher::FuzzyMatcher;
use crate::matcher::MatchResult;
use crate::models::LearningSet;
use crate::text::pop_char;
use crate::text::push_char;

verus! {

/// The screen the application is currently showing.
#[derive(Debug, Clone, Copy, PartialEq)]
pub enum CurrentScreen {
    Menu,
    TypingTest,
    TypingResults,
    LearningSelect,
    LearningMode,
    LearningResults,
    Statistics,
    Settings,
    Exiting,
}

/// Move a menu cursor one entry up, wrapping from the first entry to the
/// last.
pub fn menu_cursor_up(cursor: usize, item_count: usize) -> (r: usize)
    requires
        item_count >= 1,
        cursor < item_count,
    ensures
        r == if cursor > 0 {
            cursor - 1
        } else {
            item_count - 1
        },
        r < item_count,
{
    if cursor > 0 {
        cursor - 1
    } else {
        item_count - 1
    }
}

/// Move a menu cursor one entry down, wrapping from the last entry to the
/// first.
pub fn menu_cursor_down(cursor: usize, item_count: usize) -> (r: usize)
    requires
        item_count >= 1,
        cursor < item_count,
    ensures
        r == if cursor + 1 < item_count {
            cursor + 1
        } else {
            0
        },
        r < item_count,
{
    if cursor + 1 < item_count {
        cursor + 1
    } else {
        0
    }
}

/// The file-selection screen's state: the directory shown, the entries in
/// it, and which one is highlighted.
pub struct FileExplorerState {
    /// Directory whose entries are listed
    pub current_dir: String,
    /// Paths of the listed entries
    pub files: Vec<String>,
    /// Index of the highlighted entry
    pub selected_index: usize,
    /// An error message to show, if any
    pub error: Option<String>,
}

impl FileExplorerState {
    /// A fresh file-selection state for the given directory, with nothing
    /// listed and nothing selected yet.
    pub fn new(current_dir: &str) -> (r: Self)
        ensures
            r.current_dir@ == current_dir@,
            r.files@.len() == 0,
            r.selected_index == 0,
            r.error is None,
    {
        FileExplorerState {
            current_dir: current_dir.to_owned(),
            files: Vec::new(),
            selected_index: 0,
            error: None,
        }
    }

    /// Move the highlight one entry up, stopping at the first entry.
    pub fn select_up(&mut self)
        ensures
            final(self).selected_index == if old(self).selected_index > 0 {
                old(self).selected_index - 1
            } else {
                0int
            },
            final(self).current_dir == old(self).current_dir,
            final(self).files == old(self).files,
            final(self).error == old(self).error,
    {
        if self.selected_index > 0 {
            self.selected_index = self.selected_index - 1;
        }
    }

    /// Move the highlight one entry down, stopping at the last entry.
    pub fn select_down(&mut self)
        ensures
            final(self).selected_index == if old(self).files@.len() > 0 && old(self).selected_index
                < old(self).files@.len() - 1 {
                old(self).selected_index + 1
            } else {
                old(self).selected_index as int
            },
            final(self).current_dir == old(self).current_dir,
            final(self).files == old(self).files,
            final(self).error == old(self).error,
    {
        if self.files.len() > 0 && self.selected_index < self.files.len() - 1 {
            self.selected_index = self.selected_index + 1;
        }
    }
}

/// The learning session's state: the loaded set, the card being shown, what
/// the user has typed, and the verdict on the last answer.
pub struct LearningState {
    /// The loaded learning set, if one is loaded
    pub set: Option<LearningSet>,
    /// Index of the card being shown
    pub current_card_index: usize,
    /// What the user has typed so far
    pub user_input: String,
    /// Whether the back of the card is being shown
    pub show_back: bool,
    /// The verdict on the submitted answer, once there is one
    pub match_result: Option<MatchResult>,
    /// Cards answered correctly so far
    pub correct_count: usize,
    /// Cards reviewed so far
    pub total_count: usize,
}

impl LearningState {
    /// Append a typed character to the answer; ignored while the back of
    /// the card is shown.
    pub fn type_char(&mut self, c: char)
        ensures
            final(self).user_input@ == if old(self).show_back {
                old(self).user_input@
            } else {
                old(self).user_input@.push(c)
            },
            final(self).set == old(self).set,
            final(self).current_card_index == old(self).current_card_index,
            final(self).show_back == old(self).show_back,
            final(self).match_result == old(self).match_result,
            final(self).correct_count == old(self).correct_count,
            final(self).total_count == old(self).total_count,
    {
        if !self.show_back {
            push_char(&mut self.user_input, c);
        }
    }

    /// Remove the last typed character; ignored while the back of the card
    /// is shown.
    pub fn backspace(&mut self)
        ensures
            final(self).user_input@ == if old(self).show_back || old(self).user_input@.len() == 0 {
                old(self).user_input@
            } else {
                old(self).user_input@.drop_last()
            },
            final(self).set == old(self).set,
            final(self).current_card_index == old(self).current_card_index,
            final(self).show_back == old(self).show_back,
            final(self).match_result == old(self).match_result,
            final(self).correct_count == old(self).correct_count,
            final(self).total_count == old(self).total_count,
    {
        if !self.show_back {
            let _ = pop_char(&mut self.user_input);
        }
    }

    /// Submit the typed answer for the card being shown: the matcher's
    /// verdict is recorded and the back of the card is revealed. Nothing
    /// happens without a loaded set or with the card index out of range,
    /// or while the back is already shown.
    pub fn submit_answer(&mut self, matcher: &FuzzyMatcher)
        requires
            matcher.wf(),
        ensures
            final(self).set == old(self).set,
            final(self).current_card_index == old(self).current_card_index,
            final(self).user_input == old(self).user_input,
            final(self).correct_count == old(self).correct_count,
            final(self).total_count == old(self).total_count,
            ({
                let can_submit = !old(self).show_back && (old(self).set matches Some(set)
                    && old(self).current_card_index < set.cards@.len());
                if can_submit {
                    &&& final(self).show_back == true
                    &&& final(self).match_result matches Some(mr) && matcher.spec_verdict(
                        old(self).user_input@,
                        old(self).set->Some_0.cards@[old(self).current_card_index as int].back@,
                        mr,
                    )
                } else {
                    final(self).show_back == old(self).show_back && final(self).match_result == old(
                        self,
                    ).match_result
                }
            }),
    {
        if self.show_back {
            return ;
        }
        let has_card = match &self.set {
            Some(set) => self.current_card_index < set.cards.len(),
            None => false,
        };
        if !has_card {
            return ;
        }
        let result = match &self.set {
            Some(set) => {
                let card = &set.cards[self.current_card_index];
                matcher.check_answer(self.user_input.as_str(), card.back.as_str())
            },
            None => {
                return ;
            },
        };
        self.match_result = Some(result);
        self.show_back = true;
    }

    /// Move on to the next card: the typed answer and the verdict are
    /// cleared and the front of the next card will be shown.
    pub fn advance_card(&mut self)
        requires
            old(self).current_card_index < usize::MAX,
        ensures
            final(self).current_card_index == old(self).current_card_index + 1,
            final(self).user_input@.len() == 0,
            final(self).show_back == false,
            final(self).match_result is None,
            final(self).set == old(self).set,
            final(self).correct_count == old(self).correct_count,
            final(self).total_count == old(self).total_count,
    {
        self.current_card_index = self.current_card_index + 1;
        self.user_input = String::new();
        self.show_back = false;
        self.match_result = None;
    }
}

impl Default for LearningState {
    /// A fresh learning session: no set loaded, nothing typed, first card.
    fn default() -> (r: Self)
        ensures
            r.set is None,
            r.current_card_index == 0,
            r.user_input@.len() == 0,
            r.show_back == false,
            r.match_result is None,
            r.correct_count == 0,
            r.total_count == 0,
    {
        LearningState {
            set: None,
            current_card_index: 0,
            user_input: String::new(),
            show_back: false,
            match_result: None,
            correct_count: 0,
            total_count: 0,
        }
    }
}

} // verus!
