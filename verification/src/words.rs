//! Word list handling for typing tests: filtering by difficulty, random
//! selection, and assembling the practice text. Reading the word files from
//! disk is the caller's business; the logic here works on the loaded lists.

use vstd::prelude::*;
use vstd::string::StringExecFns;
use crate::error::UtilError;
use crate::matcher::lower_of;
use crate::matcher::lowercase;
use crate::models::shuffle_strings;
use crate::types::Difficulty;
use crate::types::Language;

verus! {

/// The length of a string in bytes under UTF-8, as `str::len` reports it:
/// the measure word filtering uses.
pub open spec fn spec_byte_len(s: Seq<char>) -> usize {
    vstd::utf8::encode_utf8(s).len() as usize
}

/// Whether a word survives filtering: non-empty and within the byte-length
/// cap.
pub open spec fn keeps_word(w: Seq<char>, max_len: nat) -> bool {
    spec_byte_len(w) <= max_len && w.len() > 0
}

/// The words that survive filtering at the given byte-length cap, in their
/// original order.
pub open spec fn filtered_words(ws: Seq<String>, max_len: nat) -> Seq<String> {
    ws.filter(|w: String| keeps_word(w@, max_len))
}

/// An English word entry from a word list.
#[derive(Debug, Clone)]
pub struct EnglishWord {
    pub word: String,
    pub useful_for_flashcard: bool,
    pub cefr_level: String,
    pub pos: String,
    pub word_frequency: u32,
}

/// A German word entry from a word list.
#[derive(Debug, Clone)]
pub struct GermanWord {
    pub word: String,
    pub useful_for_flashcard: bool,
    pub cefr_level: String,
    pub pos: String,
    pub word_frequency: u32,
    pub capitalization_sensitive: bool,
}

/// The bare words of an English word list, in order.
pub fn extract_english_words(words: &Vec<EnglishWord>) -> (r: Vec<String>)
    ensures
        r@.len() == words@.len(),
        forall|i: int| 0 <= i < words@.len() ==> #[trigger] r@[i] == words@[i].word,
{
    let n = words.len();
    let mut out: Vec<String> = Vec::new();
    let mut i: usize = 0;
    while i < n
        invariant
            i <= n,
            n == words@.len(),
            out@.len() == i,
            forall|k: int| 0 <= k < i ==> #[trigger] out@[k] == words@[k].word,
        decreases n - i,
    {
        out.push(words[i].word.clone());
        i += 1;
    }
    out
}

/// The words of a German word list, in order, folded to lowercase unless
/// the entry is marked capitalization-sensitive.
pub fn normalize_german_words(words: &Vec<GermanWord>) -> (r: Vec<String>)
    ensures
        r@.len() == words@.len(),
        forall|i: int|
            0 <= i < words@.len() ==> (#[trigger] r@[i])@ == if words@[i].capitalization_sensitive {
                words@[i].word@
            } else {
                lower_of(words@[i].word@)
            },
{
    let n = words.len();
    let mut out: Vec<String> = Vec::new();
    let mut i: usize = 0;
    while i < n
        invariant
            i <= n,
            n == words@.len(),
            out@.len() == i,
            forall|k: int|
                0 <= k < i ==> (#[trigger] out@[k])@ == if words@[k].capitalization_sensitive {
                    words@[k].word@
                } else {
                    lower_of(words@[k].word@)
                },
        decreases n - i,
    {
        if words[i].capitalization_sensitive {
            out.push(words[i].word.clone());
        } else {
            out.push(lowercase(words[i].word.as_str()));
        }
        i += 1;
    }
    out
}

/// The words joined into one practice text, separated by single spaces.
pub open spec fn spec_joined(ws: Seq<Seq<char>>) -> Seq<char>
    decreases ws.len(),
{
    if ws.len() == 0 {
        Seq::empty()
    } else if ws.len() == 1 {
        ws[0]
    } else {
        ws[0] + seq![' '] + spec_joined(ws.drop_first())
    }
}

proof fn lemma_joined_push(ws: Seq<Seq<char>>, w: Seq<char>)
    ensures
        spec_joined(ws.push(w)) == if ws.len() == 0 {
            w
        } else {
            spec_joined(ws) + seq![' '] + w
        },
    decreases ws.len(),
{
    let p = ws.push(w);
    if ws.len() == 0 {
        assert(p.len() == 1);
        assert(p[0] == w);
    } else {
        assert(p[0] == ws[0]);
        assert(p.drop_first() =~= ws.drop_first().push(w));
        lemma_joined_push(ws.drop_first(), w);
        if ws.len() == 1 {
            assert(spec_joined(ws) == ws[0]);
            assert(spec_joined(p) == p[0] + seq![' '] + spec_joined(p.drop_first()));
            assert(spec_joined(p.drop_first()) == w);
        } else {
            assert(spec_joined(p) == p[0] + seq![' '] + spec_joined(p.drop_first()));
            assert(spec_joined(p.drop_first()) == spec_joined(ws.drop_first()) + seq![' '] + w);
            assert(ws[0] + seq![' '] + (spec_joined(ws.drop_first()) + seq![' '] + w) =~= (ws[0]
                + seq![' '] + spec_joined(ws.drop_first())) + seq![' '] + w);
        }
    }
}

/// Join words with single spaces into one practice text.
pub fn join_words(words: &Vec<String>) -> (r: String)
    ensures
        r@ == spec_joined(words@.map_values(|w: String| w@)),
{
    let n = words.len();
    let mut out = String::new();
    let mut i: usize = 0;
    while i < n
        invariant
            i <= n,
            n == words@.len(),
            out@ == spec_joined(words@.subrange(0, i as int).map_values(|w: String| w@)),
        decreases n - i,
    {
        proof {
            let f = |w: String| w@;
            let pref = words@.subrange(0, i as int).map_values(f);
            let pref2 = words@.subrange(0, i + 1).map_values(f);
            assert(pref2 =~= pref.push(words@[i as int]@));
            lemma_joined_push(pref, words@[i as int]@);
        }
        if i > 0 {
            out.append(" ");
            proof {
                reveal_strlit(" ");
                assert(" "@ =~= seq![' ']);
            }
        }
        out.append(words[i].as_str());
        i += 1;
        proof {
            let f = |w: String| w@;
            let pref = words@.subrange(0, i - 1).map_values(f);
            if pref.len() == 0 {
                assert(out@ =~= spec_joined(words@.subrange(0, i as int).map_values(f)));
            } else {
                assert(out@ =~= spec_joined(words@.subrange(0, i as int).map_values(f)));
            }
        }
    }
    proof {
        assert(words@.subrange(0, n as int) =~= words@);
    }
    out
}

proof fn lemma_take_to_multiset_subset(s: Seq<String>, k: int)
    requires
        0 <= k <= s.len(),
    ensures
        s.take(k).to_multiset().subset_of(s.to_multiset()),
    decreases s.len() - k,
{
    broadcast use vstd::seq_lib::group_to_multiset_ensures;

    if k == s.len() {
        assert(s.take(k) =~= s);
    } else {
        lemma_take_to_multiset_subset(s, k + 1);
        assert(s.take(k + 1) =~= s.take(k).push(s[k]));
        assert(s.take(k + 1).to_multiset() =~= s.take(k).to_multiset().insert(s[k]));
        assert forall|x: String| s.take(k).to_multiset().count(x) <= s.to_multiset().count(
            x,
        ) by {
            assert(s.take(k + 1).to_multiset().count(x) >= s.take(k).to_multiset().count(x));
        }
    }
}

/// Word loader for typing tests. Reading and parsing the word files is the
/// caller's business; this type holds the configured data directory and the
/// filtering and selection logic.
pub struct WordLoader {
    /// Directory containing word files
    pub data_dir: String,
}

impl WordLoader {
    /// Create a new loader for word files under the given data directory.
    pub fn new(data_dir: &str) -> (r: Self)
        ensures
            r.data_dir@ == data_dir@,
    {
        WordLoader { data_dir: data_dir.to_owned() }
    }

    /// Filter words in place by the difficulty's byte-length cap, dropping
    /// empty words; errors when nothing survives.
    pub fn filter_words(&self, words: &mut Vec<String>, language: Language, difficulty: Difficulty) -> (r:
        Result<(), UtilError>)
        ensures
            final(words)@ == filtered_words(old(words)@, difficulty.spec_max_word_length()),
            (r is Ok) <==> filtered_words(old(words)@, difficulty.spec_max_word_length()).len()
                > 0,
            r matches Err(e) ==> (e matches UtilError::NoMatchingWords {
                language: l,
                difficulty: d,
            } && l@ == language.spec_name() && d@ == difficulty.spec_display_name()),
    {
        let max_length = difficulty.max_word_length();
        let n = words.len();
        let mut kept: Vec<String> = Vec::new();
        let mut i: usize = 0;
        while i < n
            invariant
                i <= n,
                n == words@.len(),
                words@ == old(words)@,
                max_length == difficulty.spec_max_word_length(),
                kept@ == filtered_words(words@.subrange(0, i as int), max_length as nat),
            decreases n - i,
        {
            let w = &words[i];
            let keep = w.as_str().len() <= max_length && !w.as_str().is_empty();
            proof {
                broadcast use Seq::lemma_filter_push;

                let max = max_length as nat;
                let prev = words@.subrange(0, i as int);
                let cur = words@.subrange(0, i + 1);
                let x = words@[i as int];
                assert(keep == keeps_word(x@, max));
                assert(cur =~= prev.push(x));
                assert(filtered_words(cur, max) == filtered_words(prev.push(x), max));
                if keeps_word(x@, max) {
                    assert(filtered_words(prev.push(x), max) == filtered_words(prev, max).push(x));
                } else {
                    assert(filtered_words(prev.push(x), max) == filtered_words(prev, max));
                }
            }
            if keep {
                kept.push(w.clone());
            }
            i += 1;
        }
        proof {
            assert(words@.subrange(0, n as int) =~= words@);
        }
        let ok = !kept.is_empty();
        *words = kept;
        if ok {
            Ok(())
        } else {
            Err(
                UtilError::NoMatchingWords {
                    language: language.name().to_owned(),
                    difficulty: difficulty.display_name().to_owned(),
                },
            )
        }
    }

    /// A random selection of at most `count` of the given words: the result
    /// is drawn from the input words, without using any word more often
    /// than the input held it.
    pub fn select_random_words(&self, words: Vec<String>, count: usize) -> (r: Vec<String>)
        ensures
            r@.len() == if count <= words@.len() {
                count as int
            } else {
                words@.len() as int
            },
            r@.to_multiset().subset_of(words@.to_multiset()),
    {
        let mut selected = words;
        shuffle_strings(&mut selected);
        let ghost shuffled = selected@;
        selected.truncate(count);
        proof {
            if count <= shuffled.len() {
                assert(selected@ =~= shuffled.take(count as int));
                lemma_take_to_multiset_subset(shuffled, count as int);
            } else {
                assert(selected@ =~= shuffled.take(shuffled.len() as int));
                lemma_take_to_multiset_subset(shuffled, shuffled.len() as int);
            }
        }
        selected
    }
}

} // verus!
