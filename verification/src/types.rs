//! Core type definitions: languages, difficulty levels, and CEFR levels,
//! with verified, case-insensitive parsing from text.

use vstd::prelude::*;
use vstd::string::StringExecFns;
use vstd::string::StrSliceExecFns;
use std::str::FromStr;

verus! {

/// The character code a character compares under when ASCII case is
/// ignored: ASCII uppercase letters count as their lowercase forms.
pub open spec fn ascii_lower_code(c: char) -> int {
    if 'A' <= c && c <= 'Z' {
        (c as u32) + 32
    } else {
        (c as u32) as int
    }
}

/// Whether two strings are equal when ASCII case is ignored.
pub open spec fn eq_ignore_ascii_case(a: Seq<char>, b: Seq<char>) -> bool {
    a.len() == b.len() && (forall|i: int|
        0 <= i < a.len() ==> ascii_lower_code(a[i]) == ascii_lower_code(b[i]))
}

/// Compare two strings, ignoring ASCII case.
fn str_eq_ignore_ascii_case(a: &str, b: &str) -> (r: bool)
    ensures
        r == eq_ignore_ascii_case(a@, b@),
{
    let a_len = a.unicode_len();
    let b_len = b.unicode_len();
    if a_len != b_len {
        return false;
    }
    let mut i: usize = 0;
    while i < a_len
        invariant
            i <= a_len,
            a_len == a@.len(),
            b_len == b@.len(),
            a_len == b_len,
            forall|k: int| 0 <= k < i ==> ascii_lower_code(a@[k]) == ascii_lower_code(b@[k]),
        decreases a_len - i,
    {
        let ca = a.get_char(i);
        let cb = b.get_char(i);
        let code_a = ca as u32;
        let code_b = cb as u32;
        let low_a = if code_a >= 65 && code_a <= 90 {
            code_a + 32
        } else {
            code_a
        };
        let low_b = if code_b >= 65 && code_b <= 90 {
            code_b + 32
        } else {
            code_b
        };
        if low_a != low_b {
            return false;
        }
        i += 1;
    }
    true
}

/// Supported languages for typing tests and learning content.
#[derive(Debug, Clone, Copy, PartialEq, Eq, Hash)]
pub enum Language {
    /// German language
    German,
    /// English language
    English,
}

impl Language {
    /// The full language name, at the specification level.
    pub open spec fn spec_name(self) -> Seq<char> {
        match self {
            Language::German => "Deutsch"@,
            Language::English => "English"@,
        }
    }

    /// The two-letter language code.
    pub fn code(&self) -> (r: &'static str)
        ensures
            self is German ==> r@ == "de"@,
            self is English ==> r@ == "en"@,
    {
        match self {
            Language::German => "de",
            Language::English => "en",
        }
    }

    /// The full language name, as shown to the user.
    pub fn name(&self) -> (r: &'static str)
        ensures
            r@ == self.spec_name(),
    {
        match self {
            Language::German => "Deutsch",
            Language::English => "English",
        }
    }

    /// The word file name for this language.
    pub fn word_file(&self) -> (r: &'static str)
        ensures
            self is German ==> r@ == "german_words.json"@,
            self is English ==> r@ == "english_words.json"@,
    {
        match self {
            Language::German => "german_words.json",
            Language::English => "english_words.json",
        }
    }

    /// Parse a language from text, ignoring case: the language code, the
    /// English name, or the native name are all recognized.
    pub fn parse_text(s: &str) -> (r: Option<Language>)
        ensures
            r == Some(Language::German) <==> (eq_ignore_ascii_case(s@, "de"@)
                || eq_ignore_ascii_case(s@, "german"@) || eq_ignore_ascii_case(s@, "deutsch"@)),
            r == Some(Language::English) <==> (!(eq_ignore_ascii_case(s@, "de"@)
                || eq_ignore_ascii_case(s@, "german"@) || eq_ignore_ascii_case(s@, "deutsch"@))
                && (eq_ignore_ascii_case(s@, "en"@) || eq_ignore_ascii_case(s@, "english"@))),
            r is None <==> !(eq_ignore_ascii_case(s@, "de"@) || eq_ignore_ascii_case(s@, "german"@)
                || eq_ignore_ascii_case(s@, "deutsch"@) || eq_ignore_ascii_case(s@, "en"@)
                || eq_ignore_ascii_case(s@, "english"@)),
    {
        if str_eq_ignore_ascii_case(s, "de") || str_eq_ignore_ascii_case(s, "german")
            || str_eq_ignore_ascii_case(s, "deutsch") {
            Some(Language::German)
        } else if str_eq_ignore_ascii_case(s, "en") || str_eq_ignore_ascii_case(s, "english") {
            Some(Language::English)
        } else {
            None
        }
    }
}

impl FromStr for Language {
    type Err = String;

    fn from_str(s: &str) -> Result<Self, String> {
        match Language::parse_text(s) {
            Some(l) => Ok(l),
            None => {
                let mut msg = "Unknown language: ".to_owned();
                msg.append(s);
                Err(msg)
            },
        }
    }
}

/// Difficulty levels for typing tests and learning content.
#[derive(Debug, Clone, Copy, PartialEq, Eq, Hash)]
pub enum Difficulty {
    /// Easy difficulty (A1-A2 CEFR level, shorter words)
    Easy,
    /// Medium difficulty (A2-B2 CEFR level, medium words)
    Medium,
    /// Hard difficulty (B2-C2 CEFR level, longer words)
    Hard,
}

impl Difficulty {
    /// The word count for this difficulty, at the specification level.
    pub open spec fn spec_word_count(self) -> nat {
        match self {
            Difficulty::Easy => 15,
            Difficulty::Medium => 30,
            Difficulty::Hard => 50,
        }
    }

    /// The byte-length cap for this difficulty, at the specification level.
    pub open spec fn spec_max_word_length(self) -> nat {
        match self {
            Difficulty::Easy => 6,
            Difficulty::Medium => 9,
            Difficulty::Hard => 15,
        }
    }

    /// The short bilingual display name, at the specification level.
    pub open spec fn spec_display_name(self) -> Seq<char> {
        match self {
            Difficulty::Easy => "Einfach/Easy"@,
            Difficulty::Medium => "Mittel/Medium"@,
            Difficulty::Hard => "Schwer/Hard"@,
        }
    }

    /// The number of words a typing test at this difficulty uses.
    pub fn word_count(&self) -> (r: usize)
        ensures
            r == self.spec_word_count(),
    {
        match self {
            Difficulty::Easy => 15,
            Difficulty::Medium => 30,
            Difficulty::Hard => 50,
        }
    }

    /// The CEFR levels allowed at this difficulty.
    pub fn allowed_cefr_levels(&self) -> (r: Vec<&'static str>)
        ensures
            self is Easy ==> r@.len() == 2 && r@[0]@ == "A1"@ && r@[1]@ == "A2"@,
            self is Medium ==> r@.len() == 3 && r@[0]@ == "A2"@ && r@[1]@ == "B1"@ && r@[2]@
                == "B2"@,
            self is Hard ==> r@.len() == 3 && r@[0]@ == "B2"@ && r@[1]@ == "C1"@ && r@[2]@
                == "C2"@,
    {
        match self {
            Difficulty::Easy => vec!["A1", "A2"],
            Difficulty::Medium => vec!["A2", "B1", "B2"],
            Difficulty::Hard => vec!["B2", "C1", "C2"],
        }
    }

    /// The maximum word length used when filtering words for this
    /// difficulty, in bytes.
    pub fn max_word_length(&self) -> (r: usize)
        ensures
            r == self.spec_max_word_length(),
    {
        match self {
            Difficulty::Easy => 6,
            Difficulty::Medium => 9,
            Difficulty::Hard => 15,
        }
    }

    /// A human-readable description of this difficulty.
    pub fn description(&self) -> (r: &'static str)
        ensures
            self is Easy ==> r@ == "Einfach/Easy - 15 Wörter (A1-A2 Niveau)"@,
            self is Medium ==> r@ == "Mittel/Medium - 30 Wörter (A2-B2 Niveau)"@,
            self is Hard ==> r@ == "Schwer/Hard - 50 Wörter (B2-C2 Niveau)"@,
    {
        match self {
            Difficulty::Easy => "Einfach/Easy - 15 Wörter (A1-A2 Niveau)",
            Difficulty::Medium => "Mittel/Medium - 30 Wörter (A2-B2 Niveau)",
            Difficulty::Hard => "Schwer/Hard - 50 Wörter (B2-C2 Niveau)",
        }
    }

    /// The short bilingual display name of this difficulty.
    pub fn display_name(&self) -> (r: &'static str)
        ensures
            r@ == self.spec_display_name(),
    {
        match self {
            Difficulty::Easy => "Einfach/Easy",
            Difficulty::Medium => "Mittel/Medium",
            Difficulty::Hard => "Schwer/Hard",
        }
    }

    /// Parse a difficulty from text, ignoring case: the English name, the
    /// German name, or a digit from 1 to 3.
    pub fn parse_text(s: &str) -> (r: Option<Difficulty>)
        ensures
            r == Some(Difficulty::Easy) <==> (eq_ignore_ascii_case(s@, "easy"@)
                || eq_ignore_ascii_case(s@, "einfach"@) || eq_ignore_ascii_case(s@, "1"@)),
            r == Some(Difficulty::Medium) <==> (!(eq_ignore_ascii_case(s@, "easy"@)
                || eq_ignore_ascii_case(s@, "einfach"@) || eq_ignore_ascii_case(s@, "1"@)) && (
            eq_ignore_ascii_case(s@, "medium"@) || eq_ignore_ascii_case(s@, "mittel"@)
                || eq_ignore_ascii_case(s@, "2"@))),
            r == Some(Difficulty::Hard) <==> (!(eq_ignore_ascii_case(s@, "easy"@)
                || eq_ignore_ascii_case(s@, "einfach"@) || eq_ignore_ascii_case(s@, "1"@)) && !(
            eq_ignore_ascii_case(s@, "medium"@) || eq_ignore_ascii_case(s@, "mittel"@)
                || eq_ignore_ascii_case(s@, "2"@)) && (eq_ignore_ascii_case(s@, "hard"@)
                || eq_ignore_ascii_case(s@, "schwer"@) || eq_ignore_ascii_case(s@, "3"@))),
    {
        if str_eq_ignore_ascii_case(s, "easy") || str_eq_ignore_ascii_case(s, "einfach")
            || str_eq_ignore_ascii_case(s, "1") {
            Some(Difficulty::Easy)
        } else if str_eq_ignore_ascii_case(s, "medium") || str_eq_ignore_ascii_case(s, "mittel")
            || str_eq_ignore_ascii_case(s, "2") {
            Some(Difficulty::Medium)
        } else if str_eq_ignore_ascii_case(s, "hard") || str_eq_ignore_ascii_case(s, "schwer")
            || str_eq_ignore_ascii_case(s, "3") {
            Some(Difficulty::Hard)
        } else {
            None
        }
    }
}

impl FromStr for Difficulty {
    type Err = String;

    fn from_str(s: &str) -> Result<Self, String> {
        match Difficulty::parse_text(s) {
            Some(d) => Ok(d),
            None => {
                let mut msg = "Unknown difficulty: ".to_owned();
                msg.append(s);
                Err(msg)
            },
        }
    }
}

/// CEFR (Common European Framework of Reference) levels.
#[derive(Debug, Clone, Copy, PartialEq, Eq, PartialOrd, Ord, Hash)]
pub enum CefrLevel {
    A1,
    A2,
    B1,
    B2,
    C1,
    C2,
}

impl CefrLevel {
    /// Parse a CEFR level from text, ignoring case.
    pub fn parse_text(s: &str) -> (r: Option<CefrLevel>)
        ensures
            r == Some(CefrLevel::A1) <==> eq_ignore_ascii_case(s@, "A1"@),
            r == Some(CefrLevel::A2) <==> (!eq_ignore_ascii_case(s@, "A1"@)
                && eq_ignore_ascii_case(s@, "A2"@)),
            r == Some(CefrLevel::B1) <==> (!eq_ignore_ascii_case(s@, "A1"@)
                && !eq_ignore_ascii_case(s@, "A2"@) && eq_ignore_ascii_case(s@, "B1"@)),
            r == Some(CefrLevel::B2) <==> (!eq_ignore_ascii_case(s@, "A1"@)
                && !eq_ignore_ascii_case(s@, "A2"@) && !eq_ignore_ascii_case(s@, "B1"@)
                && eq_ignore_ascii_case(s@, "B2"@)),
            r == Some(CefrLevel::C1) <==> (!eq_ignore_ascii_case(s@, "A1"@)
                && !eq_ignore_ascii_case(s@, "A2"@) && !eq_ignore_ascii_case(s@, "B1"@)
                && !eq_ignore_ascii_case(s@, "B2"@) && eq_ignore_ascii_case(s@, "C1"@)),
            r == Some(CefrLevel::C2) <==> (!eq_ignore_ascii_case(s@, "A1"@)
                && !eq_ignore_ascii_case(s@, "A2"@) && !eq_ignore_ascii_case(s@, "B1"@)
                && !eq_ignore_ascii_case(s@, "B2"@) && !eq_ignore_ascii_case(s@, "C1"@)
                && eq_ignore_ascii_case(s@, "C2"@)),
    {
        if str_eq_ignore_ascii_case(s, "A1") {
            Some(CefrLevel::A1)
        } else if str_eq_ignore_ascii_case(s, "A2") {
            Some(CefrLevel::A2)
        } else if str_eq_ignore_ascii_case(s, "B1") {
            Some(CefrLevel::B1)
        } else if str_eq_ignore_ascii_case(s, "B2") {
            Some(CefrLevel::B2)
        } else if str_eq_ignore_ascii_case(s, "C1") {
            Some(CefrLevel::C1)
        } else if str_eq_ignore_ascii_case(s, "C2") {
            Some(CefrLevel::C2)
        } else {
            None
        }
    }
}

impl FromStr for CefrLevel {
    type Err = String;

    fn from_str(s: &str) -> Result<Self, String> {
        match CefrLevel::parse_text(s) {
            Some(l) => Ok(l),
            None => {
                let mut msg = "Unknown CEFR level: ".to_owned();
                msg.append(s);
                Err(msg)
            },
        }
    }
}

} // verus!
