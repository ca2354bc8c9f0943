//! White space in text: blank lines and trimming, by the Unicode
//! `White_Space` property.
use vstd::prelude::*;
use vstd::string::StrSliceExecFns;
use vstd::string::StringExecFns;

verus! {

/// The Unicode `White_Space` property of a character.
pub uninterp spec fn white_space(c: char) -> bool;

/// `char::is_whitespace`: whether the character has the Unicode
/// `White_Space` property; the property itself is left to that name.
#[verifier::external_body]
pub(crate) fn char_is_whitespace(c: char) -> (r: bool)
    ensures
        r == white_space(c),
{
    c.is_whitespace()
}

/// A text with nothing but white space (or nothing at all).
pub open spec fn blank_line(s: Seq<char>) -> bool {
    forall|i: int| 0 <= i < s.len() ==> white_space(#[trigger] s[i])
}

pub fn is_blank_line(line: &str) -> (r: bool)
    ensures
        r == blank_line(line@),
{
    let ghost s = line@;
    for c in it: line.chars()
        invariant
            it.seq() == s,
            s == line@,
            forall|i: int| 0 <= i < it.index() ==> white_space(#[trigger] s[i]),
    {
        if !char_is_whitespace(c) {
            proof {
                assert(c == s[it.index() as int]);
            }
            return false;
        }
    }
    true
}

/// `s[i..j]` is `s` without its leading and trailing white space; an
/// all-white text trims to the empty range at its end.
pub open spec fn is_trim(s: Seq<char>, i: int, j: int) -> bool {
    &&& 0 <= i <= j <= s.len()
    &&& forall|k: int| 0 <= k < i ==> white_space(#[trigger] s[k])
    &&& forall|k: int| j <= k < s.len() ==> white_space(#[trigger] s[k])
    &&& i < j ==> !white_space(s[i]) && !white_space(s[j - 1])
    &&& i == j ==> i == s.len()
}

/// The text without leading and trailing white space.
pub open spec fn trim_spec(s: Seq<char>) -> Seq<char> {
    let (i, j) = choose|i: int, j: int| is_trim(s, i, j);
    s.subrange(i, j)
}

/// There is one way to trim a text.
pub proof fn lemma_trim_unique(s: Seq<char>, i: int, j: int)
    requires
        is_trim(s, i, j),
    ensures
        trim_spec(s) == s.subrange(i, j),
{
    let (a, b) = choose|a: int, b: int| is_trim(s, a, b);
    assert(is_trim(s, a, b));
    if i < j {
        if a == b {
            assert(white_space(s[i]));
        } else {
            if a < i {
                assert(white_space(s[a]));
            }
            if i < a {
                assert(white_space(s[i]));
            }
            if b < j {
                assert(white_space(s[j - 1]));
            }
            if j < b {
                assert(white_space(s[b - 1]));
            }
        }
    } else {
        if a < b {
            assert(white_space(s[a]));
        }
    }
}

/// `s` without leading and trailing white space.
pub fn trimmed(s: &str) -> (r: String)
    ensures
        r@ == trim_spec(s@),
{
    let n = s.unicode_len();
    let mut i: usize = 0;
    while i < n && char_is_whitespace(s.get_char(i))
        invariant
            n == s@.len(),
            i <= n,
            forall|k: int| 0 <= k < i ==> white_space(#[trigger] s@[k]),
        decreases n - i,
    {
        i = i + 1;
    }
    if i == n {
        proof {
            lemma_trim_unique(s@, n as int, n as int);
        }
        return String::new();
    }
    let mut j: usize = n;
    while j > i + 1 && char_is_whitespace(s.get_char(j - 1))
        invariant
            n == s@.len(),
            i < j <= n,
            forall|k: int| j <= k < n ==> white_space(#[trigger] s@[k]),
        decreases j,
    {
        j = j - 1;
    }
    proof {
        if j == i + 1 {
            assert(s@[j - 1] == s@[i as int]);
        }
        lemma_trim_unique(s@, i as int, j as int);
    }
    String::from_str(s.substring_char(i, j))
}

} // verus!
