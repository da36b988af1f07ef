//! Verified helpers over strings: character-wise equality and the
//! best-effort scan that pulls the first `href="..."` attribute value out of
//! a snippet of HTML.

use vstd::prelude::*;

verus! {

use vstd::string::StrSliceExecFns;

/// Character-wise string equality, decided without any trusted call.
pub fn str_eq(a: &str, b: &str) -> (r: bool)
    ensures
        r == (a@ == b@),
{
    let n = a.unicode_len();
    if n != b.unicode_len() {
        return false;
    }
    let mut i: usize = 0;
    while i < n
        invariant
            i <= n,
            n == a@.len(),
            n == b@.len(),
            forall|j: int| 0 <= j < i ==> a@[j] == b@[j],
        decreases n - i,
    {
        if a.get_char(i) != b.get_char(i) {
            return false;
        }
        i = i + 1;
    }
    proof {
        assert(a@ =~= b@);
    }
    true
}

/// Index of the first `'"'` at or after position `j`, if any.
pub open spec fn quote_index_from(s: Seq<char>, j: int) -> Option<int>
    decreases s.len() - j,
{
    if j < 0 || j >= s.len() {
        None
    } else if s[j] == '"' {
        Some(j)
    } else {
        quote_index_from(s, j + 1)
    }
}

/// Whether the six characters `href="` stand at position `i`.
pub open spec fn href_at(s: Seq<char>, i: int) -> bool {
    &&& 0 <= i
    &&& i + 6 <= s.len()
    &&& s[i] == 'h'
    &&& s[i + 1] == 'r'
    &&& s[i + 2] == 'e'
    &&& s[i + 3] == 'f'
    &&& s[i + 4] == '='
    &&& s[i + 5] == '"'
}

/// The value of the first `href="..."` attribute at or after position `i`:
/// the characters between the marker and the next `'"'`. Empty when no
/// marker follows, or when the marker's value is never closed by a quote.
pub open spec fn first_href_from(s: Seq<char>, i: int) -> Seq<char>
    decreases s.len() - i,
{
    if i < 0 || i + 6 > s.len() {
        Seq::empty()
    } else if href_at(s, i) {
        match quote_index_from(s, i + 6) {
            Some(q) => s.subrange(i + 6, q),
            None => Seq::empty(),
        }
    } else {
        first_href_from(s, i + 1)
    }
}

/// The value of the first `href="..."` attribute in `s`, or empty.
pub open spec fn first_href_value(s: Seq<char>) -> Seq<char> {
    first_href_from(s, 0)
}

/// Whether `href="` stands at position `i` of `s`, decided character by
/// character.
fn href_marker_at(s: &str, i: usize, n: usize) -> (r: bool)
    requires
        n == s@.len(),
        i + 6 <= n,
    ensures
        r == href_at(s@, i as int),
{
    s.get_char(i) == 'h' && s.get_char(i + 1) == 'r' && s.get_char(i + 2) == 'e' && s.get_char(
        i + 3,
    ) == 'f' && s.get_char(i + 4) == '=' && s.get_char(i + 5) == '"'
}

/// Extracts the first `href="..."` attribute value from a snippet of HTML,
/// or the empty string when there is none (or the value is unterminated).
pub fn first_href(s: &str) -> (r: String)
    ensures
        r@ == first_href_value(s@),
{
    let n = s.unicode_len();
    if n < 6 {
        return String::new();
    }
    let mut i: usize = 0;
    while i <= n - 6
        invariant
            i <= n,
            n == s@.len(),
            6 <= n,
            first_href_value(s@) == first_href_from(s@, i as int),
        decreases n - i,
    {
        if href_marker_at(s, i, n) {
            let mut j: usize = i + 6;
            while j < n
                invariant
                    i + 6 <= j <= n,
                    n == s@.len(),
                    href_at(s@, i as int),
                    first_href_value(s@) == first_href_from(s@, i as int),
                    quote_index_from(s@, i + 6) == quote_index_from(s@, j as int),
                decreases n - j,
            {
                if s.get_char(j) == '"' {
                    let captured = s.substring_char(i + 6, j);
                    return captured.to_owned();
                }
                j = j + 1;
            }
            return String::new();
        }
        i = i + 1;
    }
    String::new()
}

} // verus!
