//! Error type for the library's own failure modes.

use vstd::prelude::*;
use vstd::string::StringExecFns;

verus! {

/// An error this library's logic can itself produce.
#[derive(Debug, Clone, PartialEq)]
pub enum UtilError {
    /// No words match the filtering criteria
    NoMatchingWords { language: String, difficulty: String },
    /// A CSV data row with fewer than the two required fields; the line
    /// number counts from 1 and includes the header line
    InvalidCsvRow { line_number: usize },
    /// A parsed learning source held no cards at all
    NoCardsFound,
}

impl UtilError {
    /// A human-readable message for this error.
    pub fn message(&self) -> (r: String)
        ensures
            self matches UtilError::NoMatchingWords { language, difficulty } ==> r@
                == "No words match the criteria (language: "@ + language@ + ", difficulty: "@
                + difficulty@ + ")"@,
            self is InvalidCsvRow ==> r@ == "Invalid CSV format"@,
            self is NoCardsFound ==> r@ == "No cards found"@,
    {
        match self {
            UtilError::NoMatchingWords { language, difficulty } => {
                let mut msg = "No words match the criteria (language: ".to_owned();
                msg.append(language.as_str());
                msg.append(", difficulty: ");
                msg.append(difficulty.as_str());
                msg.append(")");
                msg
            },
            UtilError::InvalidCsvRow { .. } => "Invalid CSV format".to_owned(),
            UtilError::NoCardsFound => "No cards found".to_owned(),
        }
    }
}

} // verus!
