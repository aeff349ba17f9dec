//! Literal (non-pattern) replacement of every occurrence of a byte string.
use vstd::prelude::*;

verus! {

/// Whether `s` occurs in `t` starting at position `i`.
pub open spec fn occurs_at(t: Seq<u8>, s: Seq<u8>, i: int) -> bool {
    0 <= i && i + s.len() <= t.len() && t.subrange(i, i + s.len()) == s
}

/// `t` with every occurrence of the non-empty `s` replaced by `r`, scanning
/// from the left and never overlapping two occurrences. An empty `s` occurs
/// nowhere, so `t` is then returned as it is.
pub open spec fn replaced(t: Seq<u8>, s: Seq<u8>, r: Seq<u8>) -> Seq<u8>
    decreases t.len(),
{
    if s.len() == 0 || t.len() < s.len() {
        t
    } else if t.subrange(0, s.len() as int) == s {
        r + replaced(t.subrange(s.len() as int, t.len() as int), s, r)
    } else {
        seq![t[0]] + replaced(t.subrange(1, t.len() as int), s, r)
    }
}

/// How many occurrences of `s` the scan of `replaced` replaces in `t`.
pub open spec fn occurrences(t: Seq<u8>, s: Seq<u8>) -> nat
    decreases t.len(),
{
    if s.len() == 0 || t.len() < s.len() {
        0
    } else if t.subrange(0, s.len() as int) == s {
        1 + occurrences(t.subrange(s.len() as int, t.len() as int), s)
    } else {
        occurrences(t.subrange(1, t.len() as int), s)
    }
}

fn matches_at(t: &[u8], s: &[u8], i: usize) -> (r: bool)
    requires
        i <= t@.len(),
    ensures
        r == occurs_at(t@, s@, i as int),
{
    if s.len() > t.len() - i {
        return false;
    }
    let tl = t.len();
    let mut k: usize = 0;
    while k < s.len()
        invariant
            tl == t@.len(),
            i + s@.len() <= t@.len(),
            0 <= k <= s@.len(),
            forall|m: int| 0 <= m < k ==> t@[i + m] == s@[m],
        decreases s@.len() - k,
    {
        if t[i + k] != s[k] {
            assert(t@.subrange(i as int, i + s@.len())[k as int] != s@[k as int]);
            return false;
        }
        k += 1;
    }
    assert(t@.subrange(i as int, i + s@.len()) =~= s@);
    true
}

/// `text` with every occurrence of `search` replaced by `replacement`.
pub fn replace_all(text: &[u8], search: &[u8], replacement: &[u8]) -> (out: Vec<u8>)
    ensures
        out@ == replaced(text@, search@, replacement@),
{
    let t = Ghost(text@);
    let s = Ghost(search@);
    let r = Ghost(replacement@);
    let mut out: Vec<u8> = Vec::new();
    if search.len() == 0 {
        out.extend_from_slice(text);
        assert(out@ =~= text@);
        return out;
    }
    let n = text.len();
    let mut i: usize = 0;
    assert(t@.subrange(0, n as int) =~= t@);
    assert(out@ + t@ =~= t@);
    while i < n
        invariant
            n == t@.len(),
            t@ == text@,
            s@ == search@,
            r@ == replacement@,
            s@.len() > 0,
            0 <= i <= n,
            out@ + replaced(t@.subrange(i as int, n as int), s@, r@) == replaced(t@, s@, r@),
        decreases n - i,
    {
        let rest = Ghost(t@.subrange(i as int, n as int));
        if matches_at(text, search, i) {
            assert(rest@.subrange(0, s@.len() as int) =~= t@.subrange(i as int, i + s@.len()));
            assert(rest@.subrange(s@.len() as int, rest@.len() as int)
                =~= t@.subrange(i + s@.len(), n as int));
            let ghost before = out@;
            out.extend_from_slice(replacement);
            assert(out@ == before + r@);
            assert(before + r@ + replaced(t@.subrange(i + s@.len(), n as int), s@, r@)
                =~= before + (r@ + replaced(t@.subrange(i + s@.len(), n as int), s@, r@)));
            i = i + search.len();
        } else {
            assert(rest@.len() >= s@.len() ==> rest@.subrange(0, s@.len() as int)
                =~= t@.subrange(i as int, i + s@.len()));
            assert(rest@.subrange(1, rest@.len() as int) =~= t@.subrange(i + 1, n as int));
            let ghost before = out@;
            out.push(text[i]);
            assert(before.push(t@[i as int]) + replaced(t@.subrange(i + 1, n as int), s@, r@)
                =~= before + (seq![t@[i as int]] + replaced(
                t@.subrange(i + 1, n as int),
                s@,
                r@,
            )));
            i = i + 1;
        }
    }
    assert(t@.subrange(n as int, n as int).len() == 0);
    assert(out@ + replaced(t@.subrange(n as int, n as int), s@, r@) =~= out@);
    out
}

/// Where `search` occurs nowhere in `text`, replacing leaves `text` as it is.
pub proof fn lemma_replace_absent(text: Seq<u8>, search: Seq<u8>, replacement: Seq<u8>)
    requires
        forall|i: int| !#[trigger] occurs_at(text, search, i),
    ensures
        replaced(text, search, replacement) == text,
        occurrences(text, search) == 0,
    decreases text.len(),
{
    if search.len() == 0 || text.len() < search.len() {
    } else {
        assert(!occurs_at(text, search, 0));
        let tail = text.subrange(1, text.len() as int);
        assert forall|i: int| !#[trigger] occurs_at(tail, search, i) by {
            if occurs_at(tail, search, i) {
                assert(text.subrange(i + 1, i + 1 + search.len()) =~= tail.subrange(
                    i,
                    i + search.len(),
                ));
                assert(occurs_at(text, search, i + 1));
            }
        }
        lemma_replace_absent(tail, search, replacement);
        assert(seq![text[0]] + tail =~= text);
    }
}

/// Each replaced occurrence changes the length by the difference of the two
/// lengths; everything else keeps its length.
pub proof fn lemma_replace_length(text: Seq<u8>, search: Seq<u8>, replacement: Seq<u8>)
    ensures
        replaced(text, search, replacement).len() == text.len() + (occurrences(text, search) as int)
            * (replacement.len() - search.len()),
    decreases text.len(),
{
    let d = replacement.len() - search.len();
    if search.len() == 0 || text.len() < search.len() {
        assert(occurrences(text, search) == 0);
        assert(0 * d == 0);
    } else if text.subrange(0, search.len() as int) == search {
        let tail = text.subrange(search.len() as int, text.len() as int);
        lemma_replace_length(tail, search, replacement);
        let k = occurrences(tail, search) as int;
        assert(occurrences(text, search) == 1 + k);
        assert(replaced(text, search, replacement) == replacement + replaced(tail, search, replacement));
        assert(tail.len() == text.len() - search.len());
        assert((1 + k) * d == d + k * d) by (nonlinear_arith);
        assert((occurrences(text, search) as int) * d == d + k * d);
    } else {
        let tail = text.subrange(1, text.len() as int);
        lemma_replace_length(tail, search, replacement);
        assert(occurrences(text, search) == occurrences(tail, search));
        assert(replaced(text, search, replacement) == seq![text[0]] + replaced(tail, search, replacement));
    }
}

/// Replacing `search` by itself leaves every text as it is.
pub proof fn lemma_replace_identity(text: Seq<u8>, search: Seq<u8>)
    ensures
        replaced(text, search, search) == text,
    decreases text.len(),
{
    if search.len() == 0 || text.len() < search.len() {
    } else if text.subrange(0, search.len() as int) == search {
        let tail = text.subrange(search.len() as int, text.len() as int);
        lemma_replace_identity(tail, search);
        assert(search + tail =~= text);
    } else {
        let tail = text.subrange(1, text.len() as int);
        lemma_replace_identity(tail, search);
        assert(seq![text[0]] + tail =~= text);
    }
}

} // verus!
