//! Editor completion: which typed characters ask for completions, how
//! completion snippets become plain text, how a column counted in UTF-16
//! code units (the convention of the completion engine) maps to and from a
//! column counted in characters (the convention of the text buffer), what
//! accepting a proposal does to the buffer, and the session that hands the
//! buffer to the completion engine.

use vstd::prelude::*;

use std::sync::Arc;

use merman_analysis::Analyzer;
use merman_editor_core::{
    analyze_document_snapshot_with_shared_text, completion_for_snapshot,
    CompletionInsertTextFormat, DocumentKind as EditorDocumentKind, Position,
};

verus! {

// ---------------------------------------------------------------------
// Completion triggers

/// Whether `c` is alphabetic or numeric in the Unicode sense
/// (`char::is_alphanumeric`).
pub uninterp spec fn is_alphanumeric_char(c: char) -> bool;

/// Calls `char::is_alphanumeric`. The result is named by
/// `is_alphanumeric_char`; for an ASCII character the contract also states
/// that it is exactly an ASCII letter or digit, as the documentation of
/// `char::is_alphabetic` and `char::is_numeric` shows.
#[verifier::external_body]
fn char_is_alphanumeric(c: char) -> (r: bool)
    ensures
        r == is_alphanumeric_char(c),
        (c as u32) < 128 ==> (r <==> is_ascii_alphanumeric(c)),
{
    c.is_alphanumeric()
}

/// An ASCII letter or digit.
pub open spec fn is_ascii_alphanumeric(c: char) -> bool {
    ||| ('a' <= c && c <= 'z')
    ||| ('A' <= c && c <= 'Z')
    ||| ('0' <= c && c <= '9')
}

/// The punctuation that, besides letters and digits, starts a completion:
/// the characters that begin arrows, class members and comments.
pub open spec fn is_trigger_punctuation(c: char) -> bool {
    c == '-' || c == '>' || c == '<' || c == ':' || c == '(' || c == ')' || c == '.' || c == '_'
        || c == '%'
}

/// Law: besides letters and digits, exactly the nine characters
/// `- > < : ( ) . _ %` start a completion; no other character does (no
/// bracket, brace, quote, space or line break).
pub proof fn lemma_trigger_punctuation_is_nine(c: char)
    ensures
        is_trigger_punctuation(c) <==> seq!['-', '>', '<', ':', '(', ')', '.', '_', '%'].contains(
            c,
        ),
        !is_trigger_punctuation('[') && !is_trigger_punctuation(']') && !is_trigger_punctuation(
            '{',
        ) && !is_trigger_punctuation('}') && !is_trigger_punctuation(' ')
            && !is_trigger_punctuation('\n') && !is_trigger_punctuation('"'),
{
    let set = seq!['-', '>', '<', ':', '(', ')', '.', '_', '%'];
    if is_trigger_punctuation(c) {
        if c == '-' {
            assert(set[0] == c);
        } else if c == '>' {
            assert(set[1] == c);
        } else if c == '<' {
            assert(set[2] == c);
        } else if c == ':' {
            assert(set[3] == c);
        } else if c == '(' {
            assert(set[4] == c);
        } else if c == ')' {
            assert(set[5] == c);
        } else if c == '.' {
            assert(set[6] == c);
        } else if c == '_' {
            assert(set[7] == c);
        } else {
            assert(set[8] == c);
        }
    }
}

/// Whether typing `c` asks the editor for completions.
pub fn is_completion_trigger(c: char) -> (trigger: bool)
    ensures
        trigger == (is_alphanumeric_char(c) || is_trigger_punctuation(c)),
{
    char_is_alphanumeric(c) || matches!(c, '-' | '>' | '<' | ':' | '(' | ')' | '.' | '_' | '%')
}

// ---------------------------------------------------------------------
// Snippet placeholders

/// How the text of a completion is to be inserted.
#[derive(Debug, Clone, Copy, PartialEq, Eq, Structural)]
pub enum InsertTextFormat {
    /// The text is inserted as it stands.
    PlainText,
    /// The text may hold tab stops (`$1`, `$0`) and placeholders
    /// (`${1:name}`).
    Snippet,
}

pub open spec fn is_ascii_digit(c: char) -> bool {
    '0' <= c && c <= '9'
}

/// The first index in `[from, to)` at which `s` holds `c`, or `to` when there
/// is none.
pub open spec fn first_at(s: Seq<char>, c: char, from: int, to: int) -> int
    decreases to - from,
{
    if from >= to {
        to
    } else if s[from] == c {
        from
    } else {
        first_at(s, c, from + 1, to)
    }
}

/// The first index from `from` on at which `s` holds no ASCII digit, or the
/// length of `s` when the digits run to the end.
pub open spec fn digits_end(s: Seq<char>, from: int) -> int
    decreases s.len() - from,
{
    if from >= s.len() {
        s.len() as int
    } else if is_ascii_digit(s[from]) {
        digits_end(s, from + 1)
    } else {
        from
    }
}

pub proof fn lemma_first_at_bounds(s: Seq<char>, c: char, from: int, to: int)
    requires
        from <= to,
    ensures
        from <= first_at(s, c, from, to) <= to,
        first_at(s, c, from, to) < to ==> s[first_at(s, c, from, to)] == c,
        forall|m: int| from <= m < first_at(s, c, from, to) ==> s[m] != c,
    decreases to - from,
{
    if from < to && s[from] != c {
        lemma_first_at_bounds(s, c, from + 1, to);
    }
}

pub proof fn lemma_digits_end_bounds(s: Seq<char>, from: int)
    requires
        0 <= from <= s.len(),
    ensures
        from <= digits_end(s, from) <= s.len(),
        forall|m: int| from <= m < digits_end(s, from) ==> is_ascii_digit(s[m]),
        digits_end(s, from) < s.len() ==> !is_ascii_digit(s[digits_end(s, from)]),
    decreases s.len() - from,
{
    if from < s.len() && is_ascii_digit(s[from]) {
        lemma_digits_end_bounds(s, from + 1);
    }
}

/// A scan that stopped at `j` finds the first occurrence.
proof fn lemma_first_at_is(s: Seq<char>, c: char, from: int, to: int, j: int)
    requires
        from <= j <= to,
        forall|m: int| from <= m < j ==> s[m] != c,
        j == to || s[j] == c,
    ensures
        first_at(s, c, from, to) == j,
    decreases j - from,
{
    if from < j {
        lemma_first_at_is(s, c, from + 1, to, j);
    }
}

/// A scan that stopped at `j` finds the end of a run of digits.
proof fn lemma_digits_end_is(s: Seq<char>, from: int, j: int)
    requires
        0 <= from <= j <= s.len(),
        forall|m: int| from <= m < j ==> is_ascii_digit(s[m]),
        j == s.len() || !is_ascii_digit(s[j]),
    ensures
        digits_end(s, from) == j,
    decreases j - from,
{
    if from < j {
        lemma_digits_end_is(s, from + 1, j);
    }
}

/// The index of the `}` that closes a placeholder whose text is scanned from
/// `j` on while `depth` placeholders nested inside it are still open: a `${`
/// opens a nested placeholder, and a `}` closes the innermost open one. The
/// length of `s` when the placeholder is never closed.
pub open spec fn matching_close(s: Seq<char>, j: int, depth: nat) -> int
    decreases s.len() - j,
{
    if j >= s.len() {
        s.len() as int
    } else if s[j] == '}' {
        if depth == 0 {
            j
        } else {
            matching_close(s, j + 1, (depth - 1) as nat)
        }
    } else if s[j] == '$' && j + 1 < s.len() && s[j + 1] == '{' {
        matching_close(s, j + 2, depth + 1)
    } else {
        matching_close(s, j + 1, depth)
    }
}

pub proof fn lemma_matching_close_bounds(s: Seq<char>, j: int, depth: nat)
    requires
        0 <= j <= s.len(),
    ensures
        j <= matching_close(s, j, depth) <= s.len(),
        matching_close(s, j, depth) < s.len() ==> s[matching_close(s, j, depth)] == '}',
    decreases s.len() - j,
{
    if j < s.len() {
        if s[j] == '}' {
            if depth > 0 {
                lemma_matching_close_bounds(s, j + 1, (depth - 1) as nat);
            }
        } else if s[j] == '$' && j + 1 < s.len() && s[j + 1] == '{' {
            lemma_matching_close_bounds(s, j + 2, depth + 1);
        } else {
            lemma_matching_close_bounds(s, j + 1, depth);
        }
    }
}

/// What the text `s` from index `i` on becomes once its snippet syntax is
/// resolved:
/// - a character other than `$` is kept;
/// - a placeholder `${...}`, up to the `}` that matches its `{` (or to the end
///   when there is none), is replaced by its default text, the part after the
///   first `:` inside the braces, itself resolved, so that placeholders nested
///   in it come down to their own default text; a placeholder without `:` is
///   dropped;
/// - `$` followed by ASCII digits is dropped together with the digits;
/// - any other `$` is kept.
pub open spec fn resolve_from(s: Seq<char>, i: int) -> Seq<char>
    decreases s.len() - i,
{
    if i < 0 || i >= s.len() {
        Seq::<char>::empty()
    } else if s[i] != '$' {
        seq![s[i]] + resolve_from(s, i + 1)
    } else if i + 1 < s.len() && s[i + 1] == '{' {
        let close = matching_close(s, i + 2, 0);
        let colon = first_at(s, ':', i + 2, close);
        proof {
            lemma_matching_close_bounds(s, i + 2, 0);
            lemma_first_at_bounds(s, ':', i + 2, close);
        }
        let kept = if colon < close {
            resolve_from(s.subrange(colon + 1, close), 0)
        } else {
            Seq::<char>::empty()
        };
        if close < s.len() {
            kept + resolve_from(s, close + 1)
        } else {
            kept
        }
    } else if i + 1 < s.len() && is_ascii_digit(s[i + 1]) {
        proof {
            lemma_digits_end_bounds(s, i + 1);
            lemma_digits_end_bounds(s, i + 2);
        }
        resolve_from(s, digits_end(s, i + 2))
    } else {
        seq!['$'] + resolve_from(s, i + 1)
    }
}

/// The text of a snippet with its tab stops removed and its placeholders
/// replaced by their default text.
pub open spec fn resolve_snippet(s: Seq<char>) -> Seq<char> {
    resolve_from(s, 0)
}

/// Strips snippet tab stops (`$1`, `$0`) and placeholders (`${1:name}`,
/// nested ones included) down to plain text, since proposals are inserted
/// without tab-stop support. Plain text is returned as it stands.
pub fn resolved_insert_text(text: &str, format: InsertTextFormat) -> (out: String)
    ensures
        format == InsertTextFormat::PlainText ==> out@ == text@,
        format == InsertTextFormat::Snippet ==> out@ == resolve_snippet(text@),
{
    if format == InsertTextFormat::PlainText {
        String::from_str(text)
    } else {
        resolve_snippet_text(text)
    }
}

/// The text of a snippet with its snippet syntax resolved.
fn resolve_snippet_text(text: &str) -> (out: String)
    ensures
        out@ == resolve_from(text@, 0),
    decreases text@.len(),
{
    let ghost s = text@;
    let n = text.unicode_len();
    let mut out = String::new();
    let mut i: usize = 0;
    proof {
        reveal_strlit("$");
    }
    while i < n
        invariant
            i <= n,
            n == s.len(),
            s == text@,
            "$"@ == seq!['$'],
            resolve_from(s, 0) == out@ + resolve_from(s, i as int),
        decreases n - i,
    {
        let c = text.get_char(i);
        if c != '$' {
            let ghost before = out@;
            out.append(text.substring_char(i, i + 1));
            assert(s.subrange(i as int, i + 1) =~= seq![c]);
            assert(before + resolve_from(s, i as int) =~= out@ + resolve_from(s, i + 1));
            i = i + 1;
        } else if i + 1 < n && text.get_char(i + 1) == '{' {
            // Find the brace that closes this placeholder, stepping over the
            // placeholders nested in it.
            let mut close: usize = i + 2;
            let mut depth: usize = 0;
            while close < n && !(depth == 0 && text.get_char(close) == '}')
                invariant
                    i + 2 <= close <= n,
                    depth <= close,
                    n == s.len(),
                    s == text@,
                    matching_close(s, i + 2, 0) == matching_close(s, close as int, depth as nat),
                decreases n - close,
            {
                let d = text.get_char(close);
                if d == '}' {
                    depth = depth - 1;
                    close = close + 1;
                } else if d == '$' && close + 1 < n && text.get_char(close + 1) == '{' {
                    depth = depth + 1;
                    close = close + 2;
                } else {
                    close = close + 1;
                }
            }
            proof {
                lemma_matching_close_bounds(s, i + 2, 0);
            }
            assert(close == matching_close(s, i + 2, 0));
            // Find the colon inside the braces.
            let mut colon: usize = i + 2;
            while colon < close && text.get_char(colon) != ':'
                invariant
                    i + 2 <= colon <= close <= n,
                    n == s.len(),
                    s == text@,
                    forall|m: int| i + 2 <= m < colon ==> s[m] != ':',
                decreases close - colon,
            {
                colon = colon + 1;
            }
            proof {
                lemma_first_at_is(s, ':', i + 2, close as int, colon as int);
            }
            let ghost before = out@;
            let ghost kept = if colon < close {
                resolve_from(s.subrange(colon + 1, close as int), 0)
            } else {
                Seq::<char>::empty()
            };
            if colon < close {
                let inner = resolve_snippet_text(text.substring_char(colon + 1, close));
                out.append(inner.as_str());
            }
            assert(out@ =~= before + kept);
            if close < n {
                assert(resolve_from(s, i as int) == kept + resolve_from(s, close + 1));
                assert(before + (kept + resolve_from(s, close + 1)) =~= out@ + resolve_from(
                    s,
                    close + 1,
                ));
                i = close + 1;
            } else {
                assert(resolve_from(s, i as int) == kept);
                assert(resolve_from(s, n as int) =~= Seq::<char>::empty());
                assert(before + kept =~= out@ + resolve_from(s, n as int));
                i = n;
            }
        } else if i + 1 < n && is_digit(text.get_char(i + 1)) {
            let mut end: usize = i + 2;
            while end < n && is_digit(text.get_char(end))
                invariant
                    i + 2 <= end <= n,
                    n == s.len(),
                    s == text@,
                    forall|m: int| i + 2 <= m < end ==> is_ascii_digit(s[m]),
                decreases n - end,
            {
                end = end + 1;
            }
            proof {
                lemma_digits_end_is(s, i + 2, end as int);
            }
            i = end;
        } else {
            let ghost before = out@;
            out.append("$");
            assert(before + resolve_from(s, i as int) =~= out@ + resolve_from(s, i + 1));
            i = i + 1;
        }
    }
    assert(resolve_from(s, n as int) =~= Seq::<char>::empty());
    assert(out@ =~= out@ + resolve_from(s, n as int));
    out
}

fn is_digit(c: char) -> (r: bool)
    ensures
        r == is_ascii_digit(c),
{
    '0' <= c && c <= '9'
}

/// Law: text without a `$` holds no snippet syntax, and is left as it is.
pub proof fn lemma_resolve_without_dollar(s: Seq<char>, i: int)
    requires
        0 <= i <= s.len(),
        !s.contains('$'),
    ensures
        resolve_from(s, i) == s.subrange(i, s.len() as int),
    decreases s.len() - i,
{
    if i < s.len() {
        assert(s[i] != '$') by {
            if s[i] == '$' {
                assert(s.contains('$'));
            }
        }
        lemma_resolve_without_dollar(s, i + 1);
        assert(seq![s[i]] + s.subrange(i + 1, s.len() as int) =~= s.subrange(i, s.len() as int));
    } else {
        assert(s.subrange(i, s.len() as int) =~= Seq::<char>::empty());
    }
}

/// Law: resolving snippet syntax never makes a text longer.
pub proof fn lemma_resolve_not_longer(s: Seq<char>, i: int)
    requires
        0 <= i <= s.len(),
    ensures
        resolve_from(s, i).len() <= s.len() - i,
    decreases s.len() - i,
{
    if i < s.len() {
        if s[i] != '$' {
            lemma_resolve_not_longer(s, i + 1);
        } else if i + 1 < s.len() && s[i + 1] == '{' {
            let close = matching_close(s, i + 2, 0);
            lemma_matching_close_bounds(s, i + 2, 0);
            let colon = first_at(s, ':', i + 2, close);
            lemma_first_at_bounds(s, ':', i + 2, close);
            if colon < close {
                lemma_resolve_not_longer(s.subrange(colon + 1, close), 0);
            }
            if close < s.len() {
                lemma_resolve_not_longer(s, close + 1);
            }
        } else if i + 1 < s.len() && is_ascii_digit(s[i + 1]) {
            lemma_digits_end_bounds(s, i + 2);
            lemma_resolve_not_longer(s, digits_end(s, i + 2));
        } else {
            lemma_resolve_not_longer(s, i + 1);
        }
    }
}

/// Scanning for a character in text that follows `p` finds it at the same
/// place, shifted by the length of `p`.
proof fn lemma_first_at_shift(p: Seq<char>, b: Seq<char>, c: char, from: int, to: int)
    requires
        0 <= from,
        to <= b.len(),
    ensures
        first_at(p + b, c, p.len() + from, p.len() + to) == p.len() + first_at(b, c, from, to),
    decreases to - from,
{
    if from < to {
        assert((p + b)[p.len() + from] == b[from]);
        lemma_first_at_shift(p, b, c, from + 1, to);
    }
}

/// The end of a run of digits in text that follows `p` is the same, shifted
/// by the length of `p`.
proof fn lemma_digits_end_shift(p: Seq<char>, b: Seq<char>, from: int)
    requires
        0 <= from,
    ensures
        digits_end(p + b, p.len() + from) == p.len() + digits_end(b, from),
    decreases b.len() - from,
{
    if from < b.len() {
        assert((p + b)[p.len() + from] == b[from]);
        lemma_digits_end_shift(p, b, from + 1);
    }
}

/// The brace that closes a placeholder in text that follows `p` is the same,
/// shifted by the length of `p`.
proof fn lemma_matching_close_shift(p: Seq<char>, b: Seq<char>, j: int, depth: nat)
    requires
        0 <= j,
    ensures
        matching_close(p + b, p.len() + j, depth) == p.len() + matching_close(b, j, depth),
    decreases b.len() - j,
{
    if j < b.len() {
        assert((p + b)[p.len() + j] == b[j]);
        if j + 1 < b.len() {
            assert((p + b)[p.len() + j + 1] == b[j + 1]);
        }
        if b[j] == '}' {
            if depth > 0 {
                lemma_matching_close_shift(p, b, j + 1, (depth - 1) as nat);
            }
        } else if b[j] == '$' && j + 1 < b.len() && b[j + 1] == '{' {
            lemma_matching_close_shift(p, b, j + 2, depth + 1);
        } else {
            lemma_matching_close_shift(p, b, j + 1, depth);
        }
    }
}

/// Resolving text that follows `p` from a place in it gives what resolving
/// that text alone gives from the same place.
proof fn lemma_resolve_shift(p: Seq<char>, b: Seq<char>, k: int)
    requires
        0 <= k <= b.len(),
    ensures
        resolve_from(p + b, p.len() + k) == resolve_from(b, k),
    decreases b.len() - k,
{
    let s = p + b;
    let d = p.len() as int;
    if k < b.len() {
        assert(s[d + k] == b[k]);
        if k + 1 < b.len() {
            assert(s[d + k + 1] == b[k + 1]);
        }
        if b[k] != '$' {
            lemma_resolve_shift(p, b, k + 1);
        } else if k + 1 < b.len() && b[k + 1] == '{' {
            let close = matching_close(b, k + 2, 0);
            lemma_matching_close_bounds(b, k + 2, 0);
            lemma_matching_close_shift(p, b, k + 2, 0);
            let colon = first_at(b, ':', k + 2, close);
            lemma_first_at_bounds(b, ':', k + 2, close);
            lemma_first_at_shift(p, b, ':', k + 2, close);
            if colon < close {
                assert(s.subrange(d + colon + 1, d + close) =~= b.subrange(colon + 1, close));
            }
            if close < b.len() {
                lemma_resolve_shift(p, b, close + 1);
            }
        } else if k + 1 < b.len() && is_ascii_digit(b[k + 1]) {
            lemma_digits_end_shift(p, b, k + 2);
            lemma_digits_end_bounds(b, k + 2);
            lemma_resolve_shift(p, b, digits_end(b, k + 2));
        } else {
            lemma_resolve_shift(p, b, k + 1);
        }
    }
}

/// Law: text without a `$` holds no snippet syntax, so it passes through
/// resolution unchanged in front of whatever follows it.
pub proof fn lemma_resolve_plain_prefix(a: Seq<char>, b: Seq<char>)
    requires
        !a.contains('$'),
    ensures
        resolve_snippet(a + b) == a + resolve_snippet(b),
{
    lemma_resolve_plain_from(a, b, 0);
    lemma_resolve_shift(a, b, 0);
    assert(a.subrange(0, a.len() as int) =~= a);
}

proof fn lemma_resolve_plain_from(a: Seq<char>, b: Seq<char>, i: int)
    requires
        0 <= i <= a.len(),
        !a.contains('$'),
    ensures
        resolve_from(a + b, i) == a.subrange(i, a.len() as int) + resolve_from(
            a + b,
            a.len() as int,
        ),
    decreases a.len() - i,
{
    if i < a.len() {
        assert((a + b)[i] == a[i]);
        assert(a[i] != '$') by {
            if a[i] == '$' {
                assert(a.contains('$'));
            }
        }
        lemma_resolve_plain_from(a, b, i + 1);
        assert(seq![a[i]] + a.subrange(i + 1, a.len() as int) =~= a.subrange(i, a.len() as int));
    } else {
        assert(a.subrange(i, a.len() as int) =~= Seq::<char>::empty());
    }
}

/// A placeholder's text without `$`, `{` or `}` closes at the first `}`.
proof fn lemma_matching_close_plain(s: Seq<char>, k: int, j: int)
    requires
        0 <= k <= j < s.len(),
        s[j] == '}',
        forall|m: int| k <= m < j ==> s[m] != '$' && s[m] != '}',
    ensures
        matching_close(s, k, 0) == j,
    decreases j - k,
{
    if k < j {
        lemma_matching_close_plain(s, k + 1, j);
    }
}

/// Law: a placeholder whose braces hold no `:`, such as a bare tab stop
/// `${1}` or a choice `${1|a,b|}`, leaves nothing of itself: resolving from
/// its `$` gives what resolving after its `}` gives.
pub proof fn lemma_placeholder_without_default(s: Seq<char>, i: int, j: int)
    requires
        0 <= i,
        i + 2 <= j < s.len(),
        s[i] == '$',
        s[i + 1] == '{',
        s[j] == '}',
        forall|m: int|
            i + 2 <= m < j ==> s[m] != ':' && s[m] != '$' && s[m] != '{' && s[m] != '}',
    ensures
        resolve_from(s, i) == resolve_from(s, j + 1),
{
    lemma_matching_close_plain(s, i + 2, j);
    lemma_first_at_is(s, ':', i + 2, j, j);
    assert(Seq::<char>::empty() + resolve_from(s, j + 1) =~= resolve_from(s, j + 1));
}

/// Law: the default text of a placeholder is exactly what follows the first
/// `:` inside its braces, whatever comes before that `:` (a `|` included).
pub proof fn lemma_placeholder_default_text(s: Seq<char>, i: int, c: int, j: int)
    requires
        0 <= i,
        i + 2 <= c < j < s.len(),
        s[i] == '$',
        s[i + 1] == '{',
        s[c] == ':',
        s[j] == '}',
        forall|m: int| i + 2 <= m < j ==> s[m] != '$' && s[m] != '{' && s[m] != '}',
        forall|m: int| i + 2 <= m < c ==> s[m] != ':',
    ensures
        resolve_from(s, i) == s.subrange(c + 1, j) + resolve_from(s, j + 1),
{
    lemma_matching_close_plain(s, i + 2, j);
    lemma_first_at_is(s, ':', i + 2, j, c);
    let d = s.subrange(c + 1, j);
    assert(!d.contains('$')) by {
        if d.contains('$') {
            let k = choose|k: int| 0 <= k < d.len() && d[k] == '$';
            assert(s[c + 1 + k] == '$');
        }
    }
    lemma_resolve_without_dollar(d, 0);
    assert(d.subrange(0, d.len() as int) =~= d);
}

/// Law: in a text, a placeholder with no `:` inside its braces drops out,
/// and what stands before and after it is resolved as it would be alone.
pub proof fn lemma_snippet_drops_bare_placeholder(p: Seq<char>, t: Seq<char>, q: Seq<char>)
    requires
        !p.contains('$'),
        !t.contains(':'),
        !t.contains('$'),
        !t.contains('{'),
        !t.contains('}'),
    ensures
        resolve_snippet(p + seq!['$', '{'] + t + seq!['}'] + q) == p + resolve_snippet(q),
{
    let pre = seq!['$', '{'] + t + seq!['}'];
    let rest = pre + q;
    assert(p + seq!['$', '{'] + t + seq!['}'] + q =~= p + rest);
    lemma_resolve_plain_prefix(p, rest);
    assert forall|m: int| 2 <= m < t.len() + 2 implies rest[m] != ':' && rest[m] != '$'
        && rest[m] != '{' && rest[m] != '}' by {
        assert(rest[m] == t[m - 2]);
        if rest[m] == ':' || rest[m] == '$' || rest[m] == '{' || rest[m] == '}' {
            assert(t.contains(t[m - 2]));
        }
    }
    let j: int = t.len() as int + 2;
    assert(rest[j] == '}');
    lemma_placeholder_without_default(rest, 0, j);
    lemma_resolve_shift(pre, q, 0);
}

/// Law: in a text, a placeholder `${t:d}` comes down to its default text
/// `d`, whatever the part `t` before the first `:` holds (a choice's `|`
/// included), and what stands before and after it is resolved as it would be
/// alone.
pub proof fn lemma_snippet_keeps_default_text(
    p: Seq<char>,
    t: Seq<char>,
    d: Seq<char>,
    q: Seq<char>,
)
    requires
        !p.contains('$'),
        !t.contains(':'),
        !t.contains('$'),
        !t.contains('{'),
        !t.contains('}'),
        !d.contains('$'),
        !d.contains('{'),
        !d.contains('}'),
    ensures
        resolve_snippet(p + seq!['$', '{'] + t + seq![':'] + d + seq!['}'] + q) == p + d
            + resolve_snippet(q),
{
    let pre = seq!['$', '{'] + t + seq![':'] + d + seq!['}'];
    let rest = pre + q;
    assert(p + seq!['$', '{'] + t + seq![':'] + d + seq!['}'] + q =~= p + rest);
    lemma_resolve_plain_prefix(p, rest);
    let c: int = t.len() as int + 2;
    let j: int = t.len() as int + d.len() as int + 3;
    assert(rest[c] == ':');
    assert(rest[j] == '}');
    assert forall|m: int| 2 <= m < j implies rest[m] != '$' && rest[m] != '{' && rest[m]
        != '}' by {
        if m < c {
            assert(rest[m] == t[m - 2]);
            if rest[m] == '$' || rest[m] == '{' || rest[m] == '}' {
                assert(t.contains(t[m - 2]));
            }
        } else if m > c {
            assert(rest[m] == d[m - c - 1]);
            if rest[m] == '$' || rest[m] == '{' || rest[m] == '}' {
                assert(d.contains(d[m - c - 1]));
            }
        }
    }
    assert forall|m: int| 2 <= m < c implies rest[m] != ':' by {
        assert(rest[m] == t[m - 2]);
        if rest[m] == ':' {
            assert(t.contains(t[m - 2]));
        }
    }
    lemma_placeholder_default_text(rest, 0, c, j);
    assert(rest.subrange(c + 1, j) =~= d);
    lemma_resolve_shift(pre, q, 0);
    assert(p + (d + resolve_snippet(q)) =~= p + d + resolve_snippet(q));
}

// ---------------------------------------------------------------------
// UTF-16 columns

/// How many UTF-16 code units encode `c`: two for a character outside the
/// Basic Multilingual Plane, one otherwise (`char::len_utf16`).
pub open spec fn utf16_units(c: char) -> nat {
    if (c as u32) < 0x10000 {
        1
    } else {
        2
    }
}

/// How many UTF-16 code units encode `s`.
pub open spec fn utf16_len(s: Seq<char>) -> nat
    decreases s.len(),
{
    if s.len() == 0 {
        0
    } else {
        utf16_len(s.drop_last()) + utf16_units(s.last())
    }
}

fn char_utf16_units(c: char) -> (u: usize)
    ensures
        u == utf16_units(c),
{
    if (c as u32) < 0x10000 {
        1
    } else {
        2
    }
}

/// The UTF-16 column at the end of `line_prefix`, the part of a line before
/// the cursor: how many UTF-16 code units encode it.
pub fn utf16_column(line_prefix: &str) -> (col: usize)
    requires
        utf16_len(line_prefix@) <= usize::MAX,
    ensures
        col == utf16_len(line_prefix@),
{
    let n = line_prefix.unicode_len();
    let mut col: usize = 0;
    let mut i: usize = 0;
    while i < n
        invariant
            i <= n,
            n == line_prefix@.len(),
            col == utf16_len(line_prefix@.take(i as int)),
            utf16_len(line_prefix@) <= usize::MAX,
        decreases n - i,
    {
        let c = line_prefix.get_char(i);
        assert(line_prefix@.take(i + 1).drop_last() =~= line_prefix@.take(i as int));
        proof {
            lemma_utf16_len_prefix_mono(line_prefix@, i + 1, n as int);
        }
        assert(line_prefix@.take(n as int) =~= line_prefix@);
        col = col + char_utf16_units(c);
        i = i + 1;
    }
    assert(line_prefix@.take(n as int) =~= line_prefix@);
    col
}

/// Encoding a longer prefix takes more code units: one at least for each
/// further character.
pub proof fn lemma_utf16_len_prefix_mono(s: Seq<char>, j: int, k: int)
    requires
        0 <= j <= k <= s.len(),
    ensures
        utf16_len(s.take(j)) + (k - j) <= utf16_len(s.take(k)),
    decreases k - j,
{
    if j < k {
        lemma_utf16_len_prefix_mono(s, j, k - 1);
        assert(s.take(k).drop_last() =~= s.take(k - 1));
    }
}

/// The character offset reached by scanning `s` from character `k` on until
/// the characters before it take at least `col` UTF-16 code units, or until
/// the end of `s`.
pub open spec fn offset_from(s: Seq<char>, col: nat, k: int) -> int
    decreases s.len() - k,
{
    if k >= s.len() || utf16_len(s.take(k)) >= col {
        k
    } else {
        offset_from(s, col, k + 1)
    }
}

/// The character offset within `line_text` of UTF-16 column `col`: the
/// smallest number of characters whose encoding takes at least `col` code
/// units, or the number of characters of the line when the column lies past
/// its end.
pub fn char_offset_for_utf16(line_text: &str, col: usize) -> (offset: usize)
    ensures
        offset == offset_from(line_text@, col as nat, 0),
{
    let n = line_text.unicode_len();
    let mut seen: usize = 0;
    let mut offset: usize = 0;
    while offset < n && seen < col
        invariant
            offset <= n,
            n == line_text@.len(),
            seen == if utf16_len(line_text@.take(offset as int)) >= col {
                col as int
            } else {
                utf16_len(line_text@.take(offset as int)) as int
            },
            offset_from(line_text@, col as nat, 0) == offset_from(
                line_text@,
                col as nat,
                offset as int,
            ),
        decreases n - offset,
    {
        let c = line_text.get_char(offset);
        let units = char_utf16_units(c);
        assert(line_text@.take(offset + 1).drop_last() =~= line_text@.take(offset as int));
        if units >= col - seen {
            seen = col;
        } else {
            seen = seen + units;
        }
        offset = offset + 1;
    }
    offset
}

/// Law: a UTF-16 column computed from the first `k` characters of a line
/// leads back to character offset `k`.
pub proof fn lemma_utf16_column_round_trip(s: Seq<char>, k: int)
    requires
        0 <= k <= s.len(),
    ensures
        offset_from(s, utf16_len(s.take(k)), 0) == k,
{
    lemma_offset_from_reaches(s, utf16_len(s.take(k)), 0, k);
}

proof fn lemma_offset_from_reaches(s: Seq<char>, col: nat, j: int, k: int)
    requires
        0 <= j <= k <= s.len(),
        col == utf16_len(s.take(k)),
    ensures
        offset_from(s, col, j) == k,
    decreases k - j,
{
    if j < k {
        lemma_utf16_len_prefix_mono(s, j + 1, k);
        lemma_utf16_len_prefix_mono(s, j, j + 1);
        lemma_offset_from_reaches(s, col, j + 1, k);
    }
}

/// Law: a character takes one UTF-16 code unit when it lies in the Basic
/// Multilingual Plane (up to U+FFFF, CJK ideographs among them) and two, a
/// surrogate pair, above it.
pub proof fn lemma_utf16_units_by_plane(c: char)
    ensures
        (c as u32) <= 0xFFFF ==> utf16_units(c) == 1,
        (c as u32) > 0xFFFF ==> utf16_units(c) == 2,
{
}

/// Law: a text whose characters all lie in the Basic Multilingual Plane takes
/// one UTF-16 code unit per character.
pub proof fn lemma_utf16_len_of_bmp_text(s: Seq<char>)
    requires
        forall|i: int| 0 <= i < s.len() ==> (s[i] as u32) <= 0xFFFF,
    ensures
        utf16_len(s) == s.len(),
    decreases s.len(),
{
    if s.len() > 0 {
        lemma_utf16_len_of_bmp_text(s.drop_last());
    }
}

/// Law: a text whose characters all lie above the Basic Multilingual Plane
/// takes two UTF-16 code units per character.
pub proof fn lemma_utf16_len_of_astral_text(s: Seq<char>)
    requires
        forall|i: int| 0 <= i < s.len() ==> (s[i] as u32) > 0xFFFF,
    ensures
        utf16_len(s) == 2 * s.len(),
    decreases s.len(),
{
    if s.len() > 0 {
        lemma_utf16_len_of_astral_text(s.drop_last());
    }
}

/// Law: on a line whose characters all lie in the Basic Multilingual Plane, a
/// UTF-16 column is the character offset itself, up to the end of the line.
pub proof fn lemma_offset_of_bmp_line(s: Seq<char>, col: nat)
    requires
        forall|i: int| 0 <= i < s.len() ==> (s[i] as u32) <= 0xFFFF,
    ensures
        offset_from(s, col, 0) == if col <= s.len() {
            col as int
        } else {
            s.len() as int
        },
{
    lemma_offset_of_bmp_line_from(s, col, 0);
}

proof fn lemma_offset_of_bmp_line_from(s: Seq<char>, col: nat, k: int)
    requires
        forall|i: int| 0 <= i < s.len() ==> (s[i] as u32) <= 0xFFFF,
        0 <= k <= s.len(),
        k <= col,
    ensures
        offset_from(s, col, k) == if col <= s.len() {
            col as int
        } else {
            s.len() as int
        },
    decreases s.len() - k,
{
    assert forall|i: int| 0 <= i < s.take(k).len() implies (s.take(k)[i] as u32) <= 0xFFFF by {
        assert(s.take(k)[i] == s[i]);
    }
    lemma_utf16_len_of_bmp_text(s.take(k));
    if k < s.len() && k < col {
        lemma_offset_of_bmp_line_from(s, col, k + 1);
    }
}

// ---------------------------------------------------------------------
// Showing and applying a proposal

/// The columns of a row of the completion list.
#[derive(Debug, Clone, Copy, PartialEq, Eq, Structural)]
pub enum ProposalColumn {
    Icon,
    Before,
    TypedText,
    After,
    Comment,
    Details,
}

/// What a column of a proposal's row is set to: the label in the typed-text
/// column, the detail (or no text, when there is none) in the details and
/// comment columns; the other columns are left as they are (`None`).
pub fn proposal_column_text(column: ProposalColumn, label: &String, detail: &Option<String>) -> (text: Option<Option<String>>)
    ensures
        column == ProposalColumn::TypedText ==> text == Some(Some(*label)),
        column == ProposalColumn::Details || column == ProposalColumn::Comment ==> text == Some(
            *detail,
        ),
        column != ProposalColumn::TypedText && column != ProposalColumn::Details && column
            != ProposalColumn::Comment ==> text is None,
{
    match column {
        ProposalColumn::TypedText => Some(Some(label.clone())),
        ProposalColumn::Details | ProposalColumn::Comment => match detail {
            Some(d) => Some(Some(d.clone())),
            None => Some(None),
        },
        _ => None,
    }
}

/// An edit that a proposal carries: the text between two positions (lines,
/// and columns in UTF-16 code units) is to be replaced by `new_text`.
#[derive(Debug)]
pub struct TextEdit {
    pub start_line: usize,
    pub start_character: usize,
    pub end_line: usize,
    pub end_character: usize,
    pub new_text: String,
}

/// What accepting a proposal does to the buffer.
#[derive(Debug)]
pub enum CompletionEdit {
    /// Replace the text between the two positions by `text`, and put the
    /// cursor after the inserted text.
    Replace {
        start_line: usize,
        start_character: usize,
        end_line: usize,
        end_character: usize,
        text: String,
    },
    /// Insert the text at the cursor.
    InsertAtCursor(String),
    /// Leave the buffer as it is.
    Unchanged,
}

/// The text to insert, with snippet syntax resolved when it is a snippet.
pub open spec fn insertion_text(text: Seq<char>, format: InsertTextFormat) -> Seq<char> {
    if format == InsertTextFormat::PlainText {
        text
    } else {
        resolve_snippet(text)
    }
}

/// Law: a plain-text proposal inserts its text unchanged.
pub proof fn lemma_plain_text_inserted_as_is(text: Seq<char>)
    ensures
        insertion_text(text, InsertTextFormat::PlainText) == text,
{
}

/// Law: a snippet that holds no `$` holds no snippet syntax either, and is
/// inserted unchanged; inserted text is never longer than the proposal's.
pub proof fn lemma_insertion_text_of_snippet(text: Seq<char>)
    ensures
        !text.contains('$') ==> insertion_text(text, InsertTextFormat::Snippet) == text,
        insertion_text(text, InsertTextFormat::Snippet).len() <= text.len(),
{
    lemma_resolve_not_longer(text, 0);
    if !text.contains('$') {
        lemma_resolve_without_dollar(text, 0);
        assert(text.subrange(0, text.len() as int) =~= text);
    }
}

/// What accepting a proposal does: a proposal that carries an edit replaces
/// the edited range by the edit's text; otherwise one that carries text to
/// insert inserts it at the cursor, when there is one; otherwise nothing
/// changes. The inserted text has its snippet syntax resolved.
pub fn completion_edit(
    text_edit: &Option<TextEdit>,
    insert_text: &Option<String>,
    format: InsertTextFormat,
    has_cursor: bool,
) -> (edit: CompletionEdit)
    ensures
        text_edit matches Some(e) ==> (edit matches CompletionEdit::Replace {
            start_line,
            start_character,
            end_line,
            end_character,
            text,
        } && start_line == e.start_line && start_character == e.start_character && end_line
            == e.end_line && end_character == e.end_character && text@ == insertion_text(
            e.new_text@,
            format,
        )),
        text_edit is None && has_cursor && insert_text is Some ==> (edit matches CompletionEdit::InsertAtCursor(
            text,
        ) && text@ == insertion_text(insert_text->0@, format)),
        text_edit is None && !(has_cursor && insert_text is Some) ==> edit
            matches CompletionEdit::Unchanged,
        text_edit matches Some(e) ==> (format == InsertTextFormat::PlainText ==> (edit matches CompletionEdit::Replace {
            text,
            ..
        } && text@ == e.new_text@)),
        insert_text matches Some(t) ==> (text_edit is None && has_cursor && format
            == InsertTextFormat::PlainText ==> (edit matches CompletionEdit::InsertAtCursor(text)
            && text@ == t@)),
{
    match text_edit {
        Some(e) => CompletionEdit::Replace {
            start_line: e.start_line,
            start_character: e.start_character,
            end_line: e.end_line,
            end_character: e.end_character,
            text: resolved_insert_text(e.new_text.as_str(), format),
        },
        None => match insert_text {
            Some(t) => {
                if has_cursor {
                    CompletionEdit::InsertAtCursor(resolved_insert_text(t.as_str(), format))
                } else {
                    CompletionEdit::Unchanged
                }
            },
            None => CompletionEdit::Unchanged,
        },
    }
}

/// The line index of a buffer line number, which the buffer may report as
/// negative: negative numbers count as the first line.
pub fn line_index(line: i32) -> (index: usize)
    ensures
        line < 0 ==> index == 0,
        line >= 0 ==> index == line,
{
    if line < 0 {
        0
    } else {
        line as usize
    }
}

// ---------------------------------------------------------------------
// Completion sessions

/// The kind of document that the completion engine analyzes.
#[derive(Debug, Clone, Copy, PartialEq, Eq, Structural)]
pub enum DocumentKind {
    /// A Mermaid diagram source.
    Diagram,
    /// A Markdown document with Mermaid fences.
    Markdown,
    /// An MDX document with Mermaid fences.
    Mdx,
}

/// A completion proposal: the label shown in the list, its detail, the text
/// to insert and how to insert it, and the edit to apply in its place, if
/// any.
#[derive(Debug)]
pub struct Proposal {
    pub label: String,
    pub detail: Option<String>,
    pub insert_text: Option<String>,
    pub format: InsertTextFormat,
    pub text_edit: Option<TextEdit>,
}

/// A proposal as the engine reports it, in plain values: the label, the
/// detail, the text to insert, whether that text is a snippet, and the edit
/// (start line, start column, end line, end column, new text).
pub type RawProposal = (String, Option<String>, Option<String>, bool, Option<(usize, usize, usize, usize, String)>);

/// What a proposal holds, as mathematical values, in the order of
/// `RawProposal`.
pub type ProposalModel = (
    Seq<char>,
    Option<Seq<char>>,
    Option<Seq<char>>,
    bool,
    Option<(usize, usize, usize, usize, Seq<char>)>,
);

pub open spec fn opt_text(o: Option<String>) -> Option<Seq<char>> {
    match o {
        Some(t) => Some(t@),
        None => None,
    }
}

pub open spec fn raw_model(p: RawProposal) -> ProposalModel {
    (
        p.0@,
        opt_text(p.1),
        opt_text(p.2),
        p.3,
        match p.4 {
            Some(e) => Some((e.0, e.1, e.2, e.3, e.4@)),
            None => None,
        },
    )
}

/// What the engine's answer shows: `None` when it refused the text, the
/// proposals otherwise.
pub open spec fn raw_models(r: Option<Vec<RawProposal>>) -> Option<Seq<ProposalModel>> {
    match r {
        Some(v) => Some(v@.map_values(|p: RawProposal| raw_model(p))),
        None => None,
    }
}

impl View for Proposal {
    type V = ProposalModel;

    open spec fn view(&self) -> ProposalModel {
        (
            self.label@,
            opt_text(self.detail),
            opt_text(self.insert_text),
            self.format == InsertTextFormat::Snippet,
            match self.text_edit {
                Some(e) => Some(
                    (e.start_line, e.start_character, e.end_line, e.end_character, e.new_text@),
                ),
                None => None,
            },
        )
    }
}

/// The completion engine's answer for the document `uri` at `version`, of
/// the given kind and holding `text`, at the position (`line`, UTF-16 column
/// `character`): `None` when the analyzer refuses the document, the proposals
/// of the completion list otherwise, in order.
pub uninterp spec fn completions_at(
    uri: Seq<char>,
    version: i32,
    text: Seq<char>,
    kind: DocumentKind,
    line: usize,
    character: usize,
) -> Option<Seq<ProposalModel>>;

/// Analyzes `text` as the document `uri` at `version` with a fresh default
/// analyzer (`merman_analysis::Analyzer::new`, deterministic runtime policy)
/// by `merman_editor_core::analyze_document_snapshot_with_shared_text`, and
/// asks `merman_editor_core::completion_for_snapshot` for the completions at
/// (`line`, UTF-16 column `character`): `None` when the analyzer refuses the
/// document, the items of the list otherwise, each in plain values. The
/// contract claims that this answer is `completions_at` of the arguments:
/// with a default analyzer it depends on them alone.
#[verifier::external_body]
fn engine_completions(
    uri: &str,
    version: i32,
    text: &str,
    kind: DocumentKind,
    line: usize,
    character: usize,
) -> (r: Option<Vec<RawProposal>>)
    ensures
        raw_models(r) == completions_at(uri@, version, text@, kind, line, character),
{
    let kind = match kind {
        DocumentKind::Diagram => EditorDocumentKind::Diagram,
        DocumentKind::Markdown => EditorDocumentKind::Markdown,
        DocumentKind::Mdx => EditorDocumentKind::Mdx,
    };
    let snapshot = analyze_document_snapshot_with_shared_text(&Analyzer::new(), uri, version, Arc::from(text), kind).ok()?;
    let items = completion_for_snapshot(&snapshot, Position::new(line, character)).items;
    Some(items.into_iter().map(|item| (
        item.label, item.detail, item.insert_text,
        item.insert_text_format == CompletionInsertTextFormat::Snippet,
        item.text_edit.map(|e| (e.range.start.line, e.range.start.character, e.range.end.line, e.range.end.character, e.new_text)),
    )).collect())
}

fn clone_text(o: &Option<String>) -> (c: Option<String>)
    ensures
        opt_text(c) == opt_text(*o),
{
    match o {
        Some(t) => Some(t.clone()),
        None => None,
    }
}

/// The proposal that an answer of the engine reports in plain values.
pub fn proposal_from_raw(raw: &RawProposal) -> (p: Proposal)
    ensures
        p@ == raw_model(*raw),
        p.label@ == raw.0@,
        opt_text(p.detail) == opt_text(raw.1),
        opt_text(p.insert_text) == opt_text(raw.2),
        raw.3 ==> p.format == InsertTextFormat::Snippet,
        !raw.3 ==> p.format == InsertTextFormat::PlainText,
        raw.4 is None ==> p.text_edit is None,
        raw.4 matches Some(e) ==> (p.text_edit matches Some(t) && t.start_line == e.0
            && t.start_character == e.1 && t.end_line == e.2 && t.end_character == e.3
            && t.new_text@ == e.4@),
{
    let text_edit = match &raw.4 {
        Some(e) => Some(
            TextEdit {
                start_line: e.0,
                start_character: e.1,
                end_line: e.2,
                end_character: e.3,
                new_text: e.4.clone(),
            },
        ),
        None => None,
    };
    Proposal {
        label: raw.0.clone(),
        detail: clone_text(&raw.1),
        insert_text: clone_text(&raw.2),
        format: if raw.3 {
            InsertTextFormat::Snippet
        } else {
            InsertTextFormat::PlainText
        },
        text_edit,
    }
}

/// Law: a proposal that holds what an engine answer reports holds the
/// answer's edit in place: it starts at the answer's start line and column,
/// ends at its end line and column, and puts in the answer's new text; and
/// it has an edit only when the answer has one.
pub proof fn lemma_proposal_edit_in_place(p: Proposal, raw: RawProposal)
    requires
        p@ == raw_model(raw),
    ensures
        raw.4 is None <==> p.text_edit is None,
        raw.4 matches Some(e) ==> (p.text_edit matches Some(t) && t.start_line == e.0
            && t.start_character == e.1 && t.end_line == e.2 && t.end_character == e.3
            && t.new_text@ == e.4@),
        p.label@ == raw.0@,
        raw.3 <==> p.format == InsertTextFormat::Snippet,
{
    assert(p@.4 == raw_model(raw).4);
}

/// The proposals of an answer of the engine, in order: none when the
/// analyzer refused the document.
pub fn proposals_from(answer: Option<Vec<RawProposal>>) -> (items: Vec<Proposal>)
    ensures
        answer is None ==> items@.len() == 0,
        answer matches Some(v) ==> items@.map_values(|p: Proposal| p@) == v@.map_values(
            |r: RawProposal| raw_model(r),
        ),
{
    match answer {
        None => Vec::new(),
        Some(raw) => {
            let mut items: Vec<Proposal> = Vec::new();
            let mut i: usize = 0;
            while i < raw.len()
                invariant
                    i <= raw.len(),
                    items@.len() == i,
                    forall|j: int| 0 <= j < i ==> #[trigger] items@[j]@ == raw_model(raw@[j]),
                decreases raw.len() - i,
            {
                items.push(proposal_from_raw(&raw[i]));
                i = i + 1;
            }
            assert(items@.map_values(|p: Proposal| p@) =~= raw@.map_values(
                |r: RawProposal| raw_model(r),
            ));
            items
        },
    }
}

/// The name under which the editor buffer is known to the completion engine.
pub open spec fn document_uri() -> Seq<char> {
    "file:///piky-buffer.mmd"@
}

/// The completions a session gives for `text` handed to the engine under
/// `version`, at (`line`, UTF-16 column `character`): the engine's proposals,
/// or none when the analyzer refuses the text.
pub open spec fn session_completions(
    version: i32,
    text: Seq<char>,
    line: usize,
    character: usize,
) -> Seq<ProposalModel> {
    match completions_at(document_uri(), version, text, DocumentKind::Diagram, line, character) {
        Some(items) => items,
        None => Seq::empty(),
    }
}

/// The editor buffer as the completion engine knows it: one diagram
/// document, whose version goes up by one with each request, so that each
/// request is answered for the text as it then stands.
pub struct CompletionSession {
    version: i32,
}

impl CompletionSession {
    /// The version under which the buffer was last handed to the engine
    /// (zero before the first request).
    pub closed spec fn document_version(&self) -> int {
        self.version as int
    }

    /// A session before any request.
    pub fn new() -> (session: Self)
        ensures
            session.document_version() == 0,
    {
        CompletionSession { version: 0 }
    }

    /// The version under which the buffer was last handed to the engine.
    pub fn current_version(&self) -> (v: i32)
        ensures
            v == self.document_version(),
    {
        self.version
    }

    /// The completions for `text` at the cursor (`line`, UTF-16 column
    /// `character`): the text is handed to the engine as the diagram document
    /// `file:///piky-buffer.mmd` under the next version, and the engine's
    /// proposals come back in order; a text the analyzer refuses has none.
    pub fn complete(&mut self, text: &str, line: usize, character: usize) -> (items: Vec<Proposal>)
        requires
            old(self).document_version() < i32::MAX,
        ensures
            final(self).document_version() == old(self).document_version() + 1,
            items@.map_values(|p: Proposal| p@) == session_completions(
                (old(self).document_version() + 1) as i32,
                text@,
                line,
                character,
            ),
    {
        self.version = self.version + 1;
        let answer = engine_completions(
            "file:///piky-buffer.mmd",
            self.version,
            text,
            DocumentKind::Diagram,
            line,
            character,
        );
        proposals_from(answer)
    }
}

} // verus!
