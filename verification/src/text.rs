//! Strings as sequences of characters.

use vstd::prelude::*;

verus! {

/// The characters of `text`, in order.
pub(crate) fn chars_of(text: &str) -> (v: Vec<char>)
    ensures
        v@ == text@,
{
    let mut v: Vec<char> = Vec::new();
    for c in it: text.chars()
        invariant
            it.seq() == text@,
            v@ == it.seq().take(it.index() as int),
    {
        v.push(c);
    }
    v
}

/// Whether the characters of `p` from `from` up to `to` spell `word`.
pub(crate) fn range_is(p: &Vec<char>, from: usize, to: usize, word: &Vec<char>) -> (r: bool)
    requires
        from <= to <= p.len(),
    ensures
        r == (p@.subrange(from as int, to as int) == word@),
{
    if to - from != word.len() {
        return false;
    }
    let n = word.len();
    let mut k: usize = 0;
    while k < n
        invariant
            k <= n,
            n == word.len(),
            n == to - from,
            to <= p.len(),
            forall|m: int| 0 <= m < k ==> p[from + m] == word[m],
        decreases n - k,
    {
        if p[from + k] != word[k] {
            return false;
        }
        k += 1;
    }
    proof {
        assert(p@.subrange(from as int, to as int) =~= word@);
    }
    true
}

/// Whether `a` and `b` hold the same characters.
pub(crate) fn same_text(a: &str, b: &str) -> (r: bool)
    ensures
        r == (a@ == b@),
{
    let x = chars_of(a);
    let y = chars_of(b);
    let r = range_is(&x, 0, x.len(), &y);
    proof {
        assert(x@.subrange(0, x.len() as int) =~= x@);
    }
    r
}

} // verus!
