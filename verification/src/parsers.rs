//! Parsers for learning sets written as CSV or Markdown. Reading the file
//! into lines is the caller's business; the line-level grammar lives here.
//!
//! The CSV form is one header line followed by data rows
//! `front,back,tags`, where each field may be quoted and the tags field
//! holds semicolon-separated tags. The Markdown form is a title line
//! `# Name` and cards given as `**Front:**`/`**Back:**` (or bare
//! `Front:`/`Back:`) line pairs.

use vstd::prelude::*;
use crate::error::UtilError;
use crate::matcher::trim_of;
use crate::matcher::trimmed;
use crate::models::Card;
use crate::models::LearningSet;
use crate::text::spec_split;
use crate::text::spec_starts_with;
use crate::text::spec_strip_prefix_all;
use crate::text::spec_trim_matches;
use crate::text::split_char;
use crate::text::str_starts_with;
use crate::text::strip_prefix_all;
use crate::text::trim_matches_char;

verus! {

/// The comma-separated fields of a CSV line.
pub open spec fn csv_fields(line: Seq<char>) -> Seq<Seq<char>> {
    spec_split(line, ',')
}

/// Whether a CSV data line is usable: it has at least a front and a back
/// field.
pub open spec fn csv_line_ok(line: Seq<char>) -> bool {
    csv_fields(line).len() >= 2
}

/// A CSV field cleaned for use: trimmed, then surrounding quotes removed.
pub open spec fn csv_clean(field: Seq<char>) -> Seq<char> {
    spec_trim_matches(trim_of(field), '"')
}

/// The tags of a CSV data line: the cleaned third field split on
/// semicolons, each piece trimmed; no tags without a third field.
pub open spec fn csv_tags(line: Seq<char>) -> Seq<Seq<char>> {
    if csv_fields(line).len() > 2 {
        spec_split(csv_clean(csv_fields(line)[2]), ';').map_values(|t: Seq<char>| trim_of(t))
    } else {
        Seq::empty()
    }
}

/// Whether a parsed card matches what a CSV data line says.
pub open spec fn csv_card_matches(card: Card, line: Seq<char>) -> bool {
    &&& card.front@ == csv_clean(csv_fields(line)[0])
    &&& card.back@ == csv_clean(csv_fields(line)[1])
    &&& card.tags@.map_values(|t: String| t@) == csv_tags(line)
    &&& card.explanation is None
}

/// Clean one CSV field: trim it, then strip surrounding quotes.
fn clean_field(field: &str) -> (r: String)
    ensures
        r@ == csv_clean(field@),
{
    trim_matches_char(trimmed(field), '"')
}

/// Parse flashcards from the lines of a CSV file. The first line is the
/// header and is skipped; every later line must hold at least
/// `front,back`, and may add semicolon-separated tags. Fails on a row with
/// fewer than two fields (naming the first such row's 1-based line
/// number), or when no data rows are left at all.
pub fn parse_cards_from_csv(lines: &Vec<String>, name: &str) -> (r: Result<LearningSet, UtilError>)
    ensures
        r matches Ok(set) ==> {
            &&& lines@.len() >= 2
            &&& forall|k: int| 1 <= k < lines@.len() ==> csv_line_ok((#[trigger] lines@[k])@)
            &&& set.name@ == name@
            &&& set.description@.len() == 0
            &&& set.questions@.len() == 0
            &&& set.tags@.len() == 0
            &&& set.cards@.len() == lines@.len() - 1
            &&& forall|k: int|
                1 <= k < lines@.len() ==> csv_card_matches(#[trigger] set.cards@[k - 1], lines@[k]@)
        },
        r matches Err(e) ==> (e is InvalidCsvRow || e is NoCardsFound),
        r matches Err(e) ==> (e matches UtilError::InvalidCsvRow { line_number } ==> {
            &&& 2 <= line_number
            &&& line_number - 1 < lines@.len()
            &&& !csv_line_ok(lines@[line_number - 1]@)
            &&& forall|k: int| 1 <= k < line_number - 1 ==> csv_line_ok((#[trigger] lines@[k])@)
        }),
        r matches Err(e) ==> (e is NoCardsFound ==> lines@.len() <= 1),
        (r is Err) <==> (lines@.len() <= 1 || exists|k: int|
            1 <= k < lines@.len() && !csv_line_ok((#[trigger] lines@[k])@)),
{
    let n = lines.len();
    let mut cards: Vec<Card> = Vec::new();
    let mut i: usize = 1;
    while i < n
        invariant
            1 <= i <= n || (n == 0 && i == 1),
            n == lines@.len(),
            cards@.len() == if i >= 1 {
                i - 1
            } else {
                0int
            },
            forall|k: int| 1 <= k < i ==> csv_line_ok((#[trigger] lines@[k])@),
            forall|k: int| 1 <= k < i ==> csv_card_matches(#[trigger] cards@[k - 1], lines@[k]@),
        decreases n - i,
    {
        let parts = split_char(lines[i].as_str(), ',');
        if parts.len() < 2 {
            return Err(UtilError::InvalidCsvRow { line_number: i + 1 });
        }
        let front = clean_field(parts[0].as_str());
        let back = clean_field(parts[1].as_str());
        let tags: Vec<String> = if parts.len() > 2 {
            let raw = clean_field(parts[2].as_str());
            let pieces = split_char(raw.as_str(), ';');
            let m = pieces.len();
            let mut tag_list: Vec<String> = Vec::new();
            let mut j: usize = 0;
            while j < m
                invariant
                    j <= m,
                    m == pieces@.len(),
                    tag_list@.len() == j,
                    forall|t: int|
                        0 <= t < j ==> (#[trigger] tag_list@[t])@ == trim_of(pieces@[t]@),
                decreases m - j,
            {
                tag_list.push(trimmed(pieces[j].as_str()).to_owned());
                j += 1;
            }
            proof {
                let line = lines@[i as int]@;
                assert(pieces@.map_values(|x: String| x@) == spec_split(
                    csv_clean(csv_fields(line)[2]),
                    ';',
                ));
                assert(tag_list@.map_values(|t: String| t@) =~= csv_tags(line));
            }
            tag_list
        } else {
            Vec::new()
        };
        proof {
            let line = lines@[i as int]@;
            if !(csv_fields(line).len() > 2) {
                assert(tags@.map_values(|t: String| t@) =~= csv_tags(line));
            }
        }
        cards.push(Card { front, back, tags, explanation: None });
        i += 1;
    }
    if cards.is_empty() {
        return Err(UtilError::NoCardsFound);
    }
    Ok(
        LearningSet {
            name: name.to_owned(),
            description: String::new(),
            cards,
            questions: Vec::new(),
            tags: Vec::new(),
        },
    )
}

/// Whether a trimmed line is the Markdown title line (`# Name`).
pub open spec fn md_is_title(t: Seq<char>) -> bool {
    spec_starts_with(t, "# "@)
}

/// The title text of a Markdown title line.
pub open spec fn md_title_of(t: Seq<char>) -> Seq<char> {
    t.subrange(2, t.len() as int)
}

/// Whether a trimmed line begins a card front.
pub open spec fn md_is_front(t: Seq<char>) -> bool {
    spec_starts_with(t, "**Front:**"@) || spec_starts_with(t, "Front:"@)
}

/// The front text of a front line: both marker forms stripped, then
/// trimmed.
pub open spec fn md_front_text(t: Seq<char>) -> Seq<char> {
    trim_of(spec_strip_prefix_all(spec_strip_prefix_all(t, "**Front:**"@), "Front:"@))
}

/// Whether a trimmed line gives a card back.
pub open spec fn md_is_back(t: Seq<char>) -> bool {
    spec_starts_with(t, "**Back:**"@) || spec_starts_with(t, "Back:"@)
}

/// The back text of a back line: both marker forms stripped, then trimmed.
pub open spec fn md_back_text(t: Seq<char>) -> Seq<char> {
    trim_of(spec_strip_prefix_all(spec_strip_prefix_all(t, "**Back:**"@), "Back:"@))
}

/// The parse state after the first `k` Markdown lines: the set name so
/// far, the front waiting for its back (if any), and the finished cards
/// as front/back pairs.
pub open spec fn md_state(lines: Seq<Seq<char>>, k: int) -> (
    Seq<char>,
    Option<Seq<char>>,
    Seq<(Seq<char>, Seq<char>)>,
)
    decreases k,
{
    if k <= 0 {
        ("Unnamed Set"@, None, Seq::empty())
    } else {
        let prev = md_state(lines, k - 1);
        let t = trim_of(lines[k - 1]);
        if md_is_title(t) {
            (md_title_of(t), prev.1, prev.2)
        } else if md_is_front(t) {
            (prev.0, Some(md_front_text(t)), prev.2)
        } else if md_is_back(t) && prev.1 is Some {
            (prev.0, None, prev.2.push((prev.1->0, md_back_text(t))))
        } else {
            prev
        }
    }
}

/// Whether a parsed card matches a front/back pair of the Markdown parse.
pub open spec fn md_card_matches(card: Card, pair: (Seq<char>, Seq<char>)) -> bool {
    &&& card.front@ == pair.0
    &&& card.back@ == pair.1
    &&& card.tags@.len() == 0
    &&& card.explanation is None
}

/// Parse flashcards from the lines of a Markdown file: a `# Name` title
/// line names the set, and each `**Front:**` line followed (not
/// necessarily immediately) by a `**Back:**` line makes one card; the bare
/// `Front:`/`Back:` forms work too. Fails when no complete card is found.
pub fn parse_cards_from_markdown(lines: &Vec<String>) -> (r: Result<LearningSet, UtilError>)
    ensures
        ({
            let st = md_state(lines@.map_values(|l: String| l@), lines@.len() as int);
            &&& r matches Ok(set) ==> {
                &&& set.name@ == st.0
                &&& set.description@.len() == 0
                &&& set.questions@.len() == 0
                &&& set.tags@.len() == 0
                &&& set.cards@.len() == st.2.len()
                &&& forall|k: int|
                    0 <= k < st.2.len() ==> md_card_matches(#[trigger] set.cards@[k], st.2[k])
            }
            &&& r matches Err(e) ==> e is NoCardsFound
            &&& (r is Err) <==> st.2.len() == 0
        }),
{
    let ghost ls = lines@.map_values(|l: String| l@);
    let n = lines.len();
    let mut name: String = "Unnamed Set".to_owned();
    let mut current_front: Option<String> = None;
    let mut cards: Vec<Card> = Vec::new();
    let mut i: usize = 0;
    while i < n
        invariant
            i <= n,
            n == lines@.len(),
            ls == lines@.map_values(|l: String| l@),
            ({
                let st = md_state(ls, i as int);
                &&& name@ == st.0
                &&& match current_front {
                    Some(f) => st.1 == Some(f@),
                    None => st.1 is None,
                }
                &&& cards@.len() == st.2.len()
                &&& forall|k: int|
                    0 <= k < st.2.len() ==> md_card_matches(#[trigger] cards@[k], st.2[k])
            }),
        decreases n - i,
    {
        let t = trimmed(lines[i].as_str());
        proof {
            assert(ls[i as int] == lines@[i as int]@);
        }
        if str_starts_with(t, "# ") {
            proof {
                reveal_strlit("# ");
            }
            let title = t.substring_char(2, t.unicode_len());
            name = title.to_owned();
        } else if str_starts_with(t, "**Front:**") || str_starts_with(t, "Front:") {
            let stripped = strip_prefix_all(t, "**Front:**");
            let stripped = strip_prefix_all(stripped.as_str(), "Front:");
            current_front = Some(trimmed(stripped.as_str()).to_owned());
        } else if (str_starts_with(t, "**Back:**") || str_starts_with(t, "Back:"))
            && current_front.is_some() {
            let stripped = strip_prefix_all(t, "**Back:**");
            let stripped = strip_prefix_all(stripped.as_str(), "Back:");
            let back_text = trimmed(stripped.as_str()).to_owned();
            let front = match current_front {
                Some(f) => f,
                None => String::new(),
            };
            current_front = None;
            cards.push(Card { front, back: back_text, tags: Vec::new(), explanation: None });
        }
        i += 1;
    }
    if cards.is_empty() {
        return Err(UtilError::NoCardsFound);
    }
    Ok(
        LearningSet {
            name,
            description: String::new(),
            cards,
            questions: Vec::new(),
            tags: Vec::new(),
        },
    )
}

} // verus!
