//! Small verified text helpers shared by the parsers and the input state:
//! character pushes, prefix tests, splitting, and stripping.

use vstd::prelude::*;
use vstd::string::StrSliceExecFns;
use vstd::string::StringExecFns;

verus! {

/// Relies on String::push: appends the character at the end of the string.
#[verifier::external_body]
pub(crate) fn push_char(s: &mut String, c: char)
    ensures
        final(s)@ == old(s)@.push(c),
{
    s.push(c);
}

/// Relies on String::pop: removes and returns the last character, or does
/// nothing on an empty string.
#[verifier::external_body]
pub(crate) fn pop_char(s: &mut String) -> (r: Option<char>)
    ensures
        old(s)@.len() == 0 ==> r is None && final(s)@ == old(s)@,
        old(s)@.len() > 0 ==> r == Some(old(s)@.last()) && final(s)@ == old(s)@.drop_last(),
{
    s.pop()
}

/// Whether `s` begins with the prefix `p`.
pub open spec fn spec_starts_with(s: Seq<char>, p: Seq<char>) -> bool {
    s.len() >= p.len() && s.subrange(0, p.len() as int) == p
}

/// Test whether a string begins with a prefix.
pub fn str_starts_with(s: &str, p: &str) -> (r: bool)
    ensures
        r == spec_starts_with(s@, p@),
{
    let s_len = s.unicode_len();
    let p_len = p.unicode_len();
    if s_len < p_len {
        proof {
            assert(!spec_starts_with(s@, p@));
        }
        return false;
    }
    let mut i: usize = 0;
    while i < p_len
        invariant
            i <= p_len,
            s_len == s@.len(),
            p_len == p@.len(),
            p_len <= s_len,
            forall|k: int| 0 <= k < i ==> s@[k] == p@[k],
        decreases p_len - i,
    {
        if s.get_char(i) != p.get_char(i) {
            proof {
                assert(s@.subrange(0, p@.len() as int)[i as int] != p@[i as int]);
            }
            return false;
        }
        i += 1;
    }
    proof {
        assert(s@.subrange(0, p@.len() as int) =~= p@);
    }
    true
}

/// The string with every copy of the non-empty prefix `p` removed from the
/// front, one after the other.
pub open spec fn spec_strip_prefix_all(s: Seq<char>, p: Seq<char>) -> Seq<char>
    decreases s.len(),
{
    if p.len() > 0 && spec_starts_with(s, p) {
        spec_strip_prefix_all(s.subrange(p.len() as int, s.len() as int), p)
    } else {
        s
    }
}

/// Remove every leading copy of the prefix from the string.
pub fn strip_prefix_all(s: &str, p: &str) -> (r: String)
    ensures
        r@ == spec_strip_prefix_all(s@, p@),
    decreases s@.len(),
{
    let p_len = p.unicode_len();
    if p_len > 0 && str_starts_with(s, p) {
        let rest = s.substring_char(p_len, s.unicode_len());
        strip_prefix_all(rest, p)
    } else {
        s.to_owned()
    }
}

/// The string with every leading and every trailing copy of the character
/// removed.
pub open spec fn spec_trim_matches(s: Seq<char>, c: char) -> Seq<char>
    decreases s.len(),
{
    if s.len() > 0 && s[0] == c {
        spec_trim_matches(s.drop_first(), c)
    } else if s.len() > 0 && s.last() == c {
        spec_trim_matches(s.drop_last(), c)
    } else {
        s
    }
}

/// Remove every leading and trailing copy of the character from the string.
pub fn trim_matches_char(s: &str, c: char) -> (r: String)
    ensures
        r@ == spec_trim_matches(s@, c),
    decreases s@.len(),
{
    let len = s.unicode_len();
    if len > 0 && s.get_char(0) == c {
        let rest = s.substring_char(1, len);
        proof {
            assert(rest@ =~= s@.drop_first());
        }
        trim_matches_char(rest, c)
    } else if len > 0 && s.get_char(len - 1) == c {
        let rest = s.substring_char(0, len - 1);
        proof {
            assert(rest@ =~= s@.drop_last());
        }
        trim_matches_char(rest, c)
    } else {
        s.to_owned()
    }
}

/// The split state after reading the first `k` characters: the pieces
/// already finished, and the piece being collected.
pub open spec fn spec_split_state(s: Seq<char>, sep: char, k: int) -> (Seq<Seq<char>>, Seq<char>)
    decreases k,
{
    if k <= 0 {
        (Seq::empty(), Seq::empty())
    } else {
        let (done, cur) = spec_split_state(s, sep, k - 1);
        if s[k - 1] == sep {
            (done.push(cur), Seq::empty())
        } else {
            (done, cur.push(s[k - 1]))
        }
    }
}

/// The pieces of `s` between occurrences of `sep`, in order. Splitting an
/// empty string gives one empty piece, as `str::split` does.
pub open spec fn spec_split(s: Seq<char>, sep: char) -> Seq<Seq<char>> {
    spec_split_state(s, sep, s.len() as int).0.push(spec_split_state(s, sep, s.len() as int).1)
}

/// Split a string on a separator character.
pub fn split_char(s: &str, sep: char) -> (r: Vec<String>)
    ensures
        r@.map_values(|x: String| x@) == spec_split(s@, sep),
        r@.len() >= 1,
{
    let len = s.unicode_len();
    let mut done: Vec<String> = Vec::new();
    let mut cur = String::new();
    let mut i: usize = 0;
    while i < len
        invariant
            i <= len,
            len == s@.len(),
            done@.map_values(|x: String| x@) == spec_split_state(s@, sep, i as int).0,
            cur@ == spec_split_state(s@, sep, i as int).1,
        decreases len - i,
    {
        let c = s.get_char(i);
        if c == sep {
            done.push(cur);
            cur = String::new();
            proof {
                assert(done@.map_values(|x: String| x@) =~= spec_split_state(
                    s@,
                    sep,
                    i + 1,
                ).0);
            }
        } else {
            push_char(&mut cur, c);
        }
        i += 1;
    }
    done.push(cur);
    proof {
        assert(done@.map_values(|x: String| x@) =~= spec_split(s@, sep));
    }
    done
}

} // verus!
