//! The grammar of version tokens, and the search for the first quoted token
//! in a text.
//!
//! A version token is a run of digits, a period, another run of digits, and
//! then any number of digits, underscores and periods: `17.0.4.1`,
//! `1.8.0_333`. A text is searched with one double quote put before it and
//! one after it, so that a bare token is found as well as a quoted one.

use vstd::prelude::*;

verus! {

/// The character that encloses a version token.
pub const QUOTE: char = '"';

/// An ASCII decimal digit.
pub open spec fn is_digit(c: char) -> bool {
    '0' <= c && c <= '9'
}

/// A character that may follow the second run of digits.
pub open spec fn is_token_char(c: char) -> bool {
    is_digit(c) || c == '_' || c == '.'
}

/// `t` is digits up to `a`, a period at `a`, digits up to `b`, and token
/// characters from `b` on; both runs of digits are non-empty.
pub open spec fn token_shape(t: Seq<char>, a: int, b: int) -> bool {
    &&& 0 < a && a + 1 < b && b <= t.len()
    &&& forall|k: int| 0 <= k < a ==> is_digit(#[trigger] t[k])
    &&& t[a] == '.'
    &&& forall|k: int| a < k < b ==> is_digit(#[trigger] t[k])
    &&& forall|k: int| b <= k < t.len() ==> is_token_char(#[trigger] t[k])
}

/// `t` is a version token.
pub open spec fn is_version_token(t: Seq<char>) -> bool {
    exists|a: int, b: int| token_shape(t, a, b)
}

/// `text` with a quote before it and a quote after it.
pub open spec fn quoted(text: Seq<char>) -> Seq<char> {
    seq![QUOTE] + text + seq![QUOTE]
}

/// A version token stands in `w` between a quote at `i` and a quote at `j`.
pub open spec fn token_between(w: Seq<char>, i: int, j: int) -> bool {
    &&& 0 <= i < j < w.len()
    &&& w[i] == QUOTE
    &&& w[j] == QUOTE
    &&& is_version_token(w.subrange(i + 1, j))
}

/// Some quoted version token stands in `w`.
pub open spec fn has_token(w: Seq<char>) -> bool {
    exists|i: int, j: int| token_between(w, i, j)
}

/// The quoted token between `i` and `j` is the first in `w`: no other opens
/// before `i`.
pub open spec fn first_token(w: Seq<char>, i: int, j: int) -> bool {
    &&& token_between(w, i, j)
    &&& forall|i2: int, j2: int| #[trigger] token_between(w, i2, j2) ==> i <= i2
}

/// The version that `text` holds: the first quoted token of `quoted(text)`
/// without its quotes, or `None` where there is no quoted token.
pub open spec fn extracted(text: Seq<char>) -> Option<Seq<char>> {
    let w = quoted(text);
    if exists|i: int, j: int| first_token(w, i, j) {
        let (i, j) = choose|i: int, j: int| first_token(w, i, j);
        Some(w.subrange(i + 1, j))
    } else {
        None
    }
}

/// Every character of a version token is a digit, an underscore or a
/// period, so none is a quote; the token starts with a digit.
pub proof fn lemma_token_chars(t: Seq<char>)
    requires
        is_version_token(t),
    ensures
        t.len() >= 3,
        is_digit(t[0]),
        forall|k: int| 0 <= k < t.len() ==> is_token_char(#[trigger] t[k]),
        forall|k: int| 0 <= k < t.len() ==> #[trigger] t[k] != QUOTE,
{
    let (a, b) = choose|a: int, b: int| token_shape(t, a, b);
    assert forall|k: int| 0 <= k < t.len() implies is_token_char(#[trigger] t[k]) by {
        // before the period, the period, the second run of digits, the rest
        if k < a {
        } else if k == a {
        } else if k < b {
        }
    }
}

/// A quote opens at most one token: the token ends at the next quote.
pub proof fn lemma_token_end_unique(w: Seq<char>, i: int, j1: int, j2: int)
    requires
        token_between(w, i, j1),
        token_between(w, i, j2),
    ensures
        j1 == j2,
{
    if j1 < j2 {
        let t = w.subrange(i + 1, j2);
        lemma_token_chars(t);
        assert(t[j1 - i - 1] == w[j1]);
    } else if j2 < j1 {
        let t = w.subrange(i + 1, j1);
        lemma_token_chars(t);
        assert(t[j2 - i - 1] == w[j2]);
    }
}

/// Where the first quoted token of `quoted(text)` stands between `i` and
/// `j`, the version of `text` is what stands between them.
pub proof fn lemma_extracted_is_first(text: Seq<char>, i: int, j: int)
    requires
        first_token(quoted(text), i, j),
    ensures
        extracted(text) == Some(quoted(text).subrange(i + 1, j)),
{
    let w = quoted(text);
    let (i2, j2) = choose|i2: int, j2: int| first_token(w, i2, j2);
    lemma_token_end_unique(w, i, j, j2);
}

/// A text without a quoted token holds no version.
pub proof fn lemma_extracted_none(text: Seq<char>)
    requires
        !has_token(quoted(text)),
    ensures
        extracted(text) is None,
{
}

/// Among the quoted tokens of `w` one is the first.
pub proof fn lemma_first_token_exists(w: Seq<char>, i: int, j: int)
    requires
        token_between(w, i, j),
    ensures
        exists|i0: int, j0: int| first_token(w, i0, j0),
    decreases i,
{
    if exists|i2: int, j2: int| token_between(w, i2, j2) && i2 < i {
        let (i2, j2) = choose|i2: int, j2: int| token_between(w, i2, j2) && i2 < i;
        lemma_first_token_exists(w, i2, j2);
    } else {
        assert(first_token(w, i, j));
    }
}

/// A text holds a version exactly where a quoted token stands in it.
pub proof fn lemma_extracted_some(text: Seq<char>)
    ensures
        extracted(text) is Some <==> has_token(quoted(text)),
{
    let w = quoted(text);
    if has_token(w) {
        let (i, j) = choose|i: int, j: int| token_between(w, i, j);
        lemma_first_token_exists(w, i, j);
    } else {
        lemma_extracted_none(text);
    }
}

/// What stands where in a quoted text.
pub proof fn lemma_quoted(text: Seq<char>)
    ensures
        quoted(text).len() == text.len() + 2,
        quoted(text)[0] == QUOTE,
        quoted(text)[text.len() as int + 1] == QUOTE,
        forall|k: int| 1 <= k <= text.len() ==> #[trigger] quoted(text)[k] == text[k - 1],
        quoted(text).subrange(1, text.len() as int + 1) == text,
{
}

/// What a text's version is, where it has one, is a version token that
/// stands in the text.
pub proof fn lemma_extracted_is_token(text: Seq<char>)
    requires
        extracted(text) is Some,
    ensures
        is_version_token(extracted(text)->0),
        exists|from: int, to: int|
            0 <= from < to <= text.len() && extracted(text)->0 == #[trigger] text.subrange(
                from,
                to,
            ),
{
    let w = quoted(text);
    let (i, j) = choose|i: int, j: int| first_token(w, i, j);
    lemma_quoted(text);
    let t = w.subrange(i + 1, j);
    lemma_token_chars(t);
    assert(t =~= text.subrange(i, j - 1));
}

/// A version token is its own version: what was extracted once is
/// extracted again unchanged.
pub proof fn lemma_bare_token(token: Seq<char>)
    requires
        is_version_token(token),
    ensures
        extracted(token) == Some(token),
{
    lemma_quoted(token);
    lemma_extracted_is_first(token, 0, token.len() as int + 1);
}

/// A text that holds a version token between two quotes has that token as
/// its version, unless a quoted token opens earlier in the quoted text.
pub proof fn lemma_quoted_token(before: Seq<char>, token: Seq<char>, after: Seq<char>)
    requires
        is_version_token(token),
        forall|i: int, j: int| #[trigger]
            token_between(quoted(before + seq![QUOTE] + token + seq![QUOTE] + after), i, j) ==> i
                > before.len(),
    ensures
        extracted(before + seq![QUOTE] + token + seq![QUOTE] + after) == Some(token),
{
    let text = before + seq![QUOTE] + token + seq![QUOTE] + after;
    let w = quoted(text);
    lemma_quoted(text);
    let i: int = before.len() as int + 1;
    let j: int = i + token.len() + 1;
    assert(w.subrange(i + 1, j) =~= token);
    lemma_extracted_is_first(text, i, j);
}

/// A version token between two quotes, after prose that holds no quote and
/// is no version token itself, is the version of the text, whatever
/// follows it.
pub proof fn lemma_token_in_prose(before: Seq<char>, token: Seq<char>, after: Seq<char>)
    requires
        is_version_token(token),
        !is_version_token(before),
        forall|k: int| 0 <= k < before.len() ==> #[trigger] before[k] != QUOTE,
    ensures
        extracted(before + seq![QUOTE] + token + seq![QUOTE] + after) == Some(token),
{
    let text = before + seq![QUOTE] + token + seq![QUOTE] + after;
    let w = quoted(text);
    lemma_quoted(text);
    assert forall|i: int, j: int| #[trigger] token_between(w, i, j) implies i > before.len() by {
        if i == 0 {
            // the token would open at the quote put before the text, and
            // close at the first quote of the text
            let t = w.subrange(1, j);
            lemma_token_chars(t);
            let close: int = before.len() as int + 1;
            if j > close {
                assert(t[close - 1] == w[close]);
            } else if j == close {
                assert(t =~= before);
            }
        }
    }
    lemma_quoted_token(before, token, after);
}

/// A digit, a period and a digit stand in `text` from `k` on.
pub open spec fn pattern_at(text: Seq<char>, k: int) -> bool {
    &&& 0 <= k && k + 2 < text.len()
    &&& is_digit(text[k])
    &&& text[k + 1] == '.'
    &&& is_digit(text[k + 2])
}

/// A text in which no digit is followed by a period and a digit holds no
/// version.
pub proof fn lemma_no_pattern(text: Seq<char>)
    requires
        forall|k: int| !#[trigger] pattern_at(text, k),
    ensures
        extracted(text) is None,
{
    let w = quoted(text);
    lemma_quoted(text);
    assert forall|i: int, j: int| !token_between(w, i, j) by {
        if token_between(w, i, j) {
            let t = w.subrange(i + 1, j);
            let (a, b) = choose|a: int, b: int| token_shape(t, a, b);
            assert(t[a - 1] == w[i + a]);
            assert(t[a + 1] == w[i + a + 2]);
            assert(pattern_at(text, i + a - 1));
        }
    }
    lemma_extracted_none(text);
}

/// Whether `c` is an ASCII decimal digit.
fn digit(c: char) -> (r: bool)
    ensures
        r == is_digit(c),
{
    '0' <= c && c <= '9'
}

/// Whether `c` may follow the second run of digits of a token.
fn token_char(c: char) -> (r: bool)
    ensures
        r == is_token_char(c),
{
    digit(c) || c == '_' || c == '.'
}

/// Where a version token stands in `w` from `s` up to `e`, its first run
/// of digits ends at its period, which a digit follows.
proof fn lemma_first_run(w: Seq<char>, s: int, e: int, p: int)
    requires
        0 <= s <= e <= w.len(),
        is_version_token(w.subrange(s, e)),
        s <= p <= w.len(),
        forall|k: int| s <= k < p ==> is_digit(#[trigger] w[k]),
        p == w.len() || !is_digit(w[p]),
    ensures
        s < p,
        p + 1 < e,
        w[p] == '.',
        is_digit(w[p + 1]),
{
    let t = w.subrange(s, e);
    let (a, b) = choose|a: int, b: int| token_shape(t, a, b);
    assert(t[a] == w[s + a]);
    if s + a > p {
        assert(t[p - s] == w[p]);
    }
    assert(t[a + 1] == w[s + a + 1]);
}

/// Where a version token stands in `w` from `s` up to a quote at `e`, a run
/// of token characters that starts in the token ends at `e`.
proof fn lemma_last_run(w: Seq<char>, s: int, e: int, q: int, r: int)
    requires
        0 <= s <= e < w.len(),
        w[e] == QUOTE,
        is_version_token(w.subrange(s, e)),
        s <= q <= e,
        q <= r <= w.len(),
        forall|k: int| q <= k < r ==> is_token_char(#[trigger] w[k]),
        r == w.len() || !is_token_char(w[r]),
    ensures
        r == e,
{
    let t = w.subrange(s, e);
    lemma_token_chars(t);
    if r < e {
        assert(t[r - s] == w[r]);
    }
}

/// The index of the quote that closes a version token starting at `s`, if
/// `w` holds such a token there.
fn token_end(w: &Vec<char>, s: usize) -> (r: Option<usize>)
    requires
        s <= w.len(),
    ensures
        match r {
            Some(e) => s < e < w.len() && w[e as int] == QUOTE && is_version_token(
                w@.subrange(s as int, e as int),
            ),
            None => forall|e: int|
                s <= e < w.len() && w[e] == QUOTE ==> !is_version_token(
                    #[trigger] w@.subrange(s as int, e),
                ),
        },
{
    let n = w.len();
    // the first run of digits
    let mut p: usize = s;
    while p < n && digit(w[p])
        invariant
            s <= p <= n,
            n == w.len(),
            forall|k: int| s <= k < p ==> is_digit(#[trigger] w[k]),
        decreases n - p,
    {
        p += 1;
    }
    if p == s || p >= n || w[p] != '.' {
        proof {
            assert forall|e: int| s <= e < n && w[e] == QUOTE implies !is_version_token(
                #[trigger] w@.subrange(s as int, e),
            ) by {
                if is_version_token(w@.subrange(s as int, e)) {
                    lemma_first_run(w@, s as int, e, p as int);
                }
            }
        }
        return None;
    }
    // the second run of digits
    let mut q: usize = p + 1;
    while q < n && digit(w[q])
        invariant
            p < q <= n,
            n == w.len(),
            forall|k: int| p < k < q ==> is_digit(#[trigger] w[k]),
        decreases n - q,
    {
        q += 1;
    }
    // what may follow it
    let mut e: usize = q;
    while e < n && token_char(w[e])
        invariant
            q <= e <= n,
            n == w.len(),
            forall|k: int| q <= k < e ==> is_token_char(#[trigger] w[k]),
        decreases n - e,
    {
        e += 1;
    }
    if q == p + 1 || e >= n || w[e] != QUOTE {
        proof {
            assert forall|e2: int| s <= e2 < n && w[e2] == QUOTE implies !is_version_token(
                #[trigger] w@.subrange(s as int, e2),
            ) by {
                if is_version_token(w@.subrange(s as int, e2)) {
                    lemma_first_run(w@, s as int, e2, p as int);
                    if q <= e2 {
                        lemma_last_run(w@, s as int, e2, q as int, e as int);
                    }
                }
            }
        }
        return None;
    }
    proof {
        let t = w@.subrange(s as int, e as int);
        assert(token_shape(t, p - s, q - s));
    }
    Some(e)
}

/// The first quoted version token of `w`: the indices of its two quotes.
pub(crate) fn find_token(w: &Vec<char>) -> (r: Option<(usize, usize)>)
    ensures
        match r {
            Some((i, j)) => first_token(w@, i as int, j as int),
            None => !has_token(w@),
        },
{
    let n = w.len();
    let mut i: usize = 0;
    while i < n
        invariant
            i <= n,
            n == w.len(),
            forall|i2: int, j2: int| #[trigger] token_between(w@, i2, j2) ==> i <= i2,
        decreases n - i,
    {
        if w[i] == QUOTE {
            if let Some(j) = token_end(w, i + 1) {
                return Some((i, j));
            }
        }
        i += 1;
    }
    None
}

} // verus!
