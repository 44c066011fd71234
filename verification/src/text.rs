//! Small text predicates shared by the diagram code: blank text and
//! prefixes.

use vstd::prelude::*;

verus! {

/// Whether `c` has the Unicode `White_Space` property (`char::is_whitespace`):
/// the ASCII tab, line feed, vertical tab, form feed, carriage return and
/// space, and the Unicode spaces and separators listed below.
pub open spec fn is_white_space(c: char) -> bool {
    let u = c as u32;
    ||| (0x9 <= u && u <= 0xD)
    ||| u == 0x20
    ||| u == 0x85
    ||| u == 0xA0
    ||| u == 0x1680
    ||| (0x2000 <= u && u <= 0x200A)
    ||| u == 0x2028
    ||| u == 0x2029
    ||| u == 0x202F
    ||| u == 0x205F
    ||| u == 0x3000
}

/// Text that is empty once trimmed: every character of it is white space.
pub open spec fn is_blank_text(s: Seq<char>) -> bool {
    forall|i: int| 0 <= i < s.len() ==> is_white_space(#[trigger] s[i])
}

fn char_is_white_space(c: char) -> (r: bool)
    ensures
        r == is_white_space(c),
{
    let u = c as u32;
    (0x9 <= u && u <= 0xD) || u == 0x20 || u == 0x85 || u == 0xA0 || u == 0x1680 || (0x2000 <= u
        && u <= 0x200A) || u == 0x2028 || u == 0x2029 || u == 0x202F || u == 0x205F || u == 0x3000
}

/// Whether `text` is empty once trimmed (`text.trim().is_empty()`).
pub fn is_blank(text: &str) -> (blank: bool)
    ensures
        blank == is_blank_text(text@),
{
    let n = text.unicode_len();
    let mut i: usize = 0;
    while i < n
        invariant
            i <= n,
            n == text@.len(),
            forall|j: int| 0 <= j < i ==> is_white_space(#[trigger] text@[j]),
        decreases n - i,
    {
        if !char_is_white_space(text.get_char(i)) {
            return false;
        }
        i = i + 1;
    }
    true
}

/// Whether `text` begins with `prefix` (`str::starts_with`).
pub fn has_prefix(text: &str, prefix: &str) -> (r: bool)
    ensures
        r == (prefix@.len() <= text@.len() && text@.take(prefix@.len() as int) == prefix@),
{
    let n = text.unicode_len();
    let m = prefix.unicode_len();
    if m > n {
        return false;
    }
    let mut i: usize = 0;
    while i < m
        invariant
            i <= m <= n,
            n == text@.len(),
            m == prefix@.len(),
            forall|j: int| 0 <= j < i ==> text@[j] == prefix@[j],
        decreases m - i,
    {
        if text.get_char(i) != prefix.get_char(i) {
            assert(text@.take(m as int)[i as int] != prefix@[i as int]);
            return false;
        }
        i = i + 1;
    }
    assert(text@.take(m as int) =~= prefix@);
    true
}

/// Whether two texts are the same, character for character.
pub fn same_text(a: &str, b: &str) -> (r: bool)
    ensures
        r == (a@ == b@),
{
    let same = a.unicode_len() == b.unicode_len() && has_prefix(a, b);
    proof {
        if a@.len() == b@.len() {
            assert(a@.take(b@.len() as int) =~= a@);
        }
    }
    same
}

} // verus!
