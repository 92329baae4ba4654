//! Whitespace tokenization of leaf commitment files.
//!
//! A file is a byte string; its tokens are the maximal runs of
//! non-whitespace bytes, in file order. Whitespace here means the six
//! ASCII whitespace bytes: a separator from the rarely used non-ASCII
//! Unicode whitespace is not split on, so its bytes stay inside a token
//! (which the loader then rejects as non-hex text rather than decoding
//! differently).
use vstd::prelude::*;

verus! {

/// The six ASCII whitespace bytes: tab, line feed, vertical tab, form
/// feed, carriage return, space.
pub open spec fn is_ws(b: u8) -> bool {
    b == 32 || b == 9 || b == 10 || b == 11 || b == 12 || b == 13
}

/// Executable test for a whitespace byte.
pub fn is_whitespace_byte(b: u8) -> (r: bool)
    ensures
        r == is_ws(b),
{
    b == 32 || b == 9 || b == 10 || b == 11 || b == 12 || b == 13
}

/// Length of the maximal non-whitespace prefix of `s`.
pub open spec fn token_len(s: Seq<u8>) -> nat
    decreases s.len(),
{
    if s.len() == 0 || is_ws(s[0]) {
        0
    } else {
        1 + token_len(s.drop_first())
    }
}

/// The maximal non-whitespace prefix never runs past the end.
pub proof fn lemma_token_len_le(s: Seq<u8>)
    ensures
        token_len(s) <= s.len(),
    decreases s.len(),
{
    if s.len() != 0 && !is_ws(s[0]) {
        lemma_token_len_le(s.drop_first());
    }
}

/// The whitespace-separated tokens of `s`, in order: leading whitespace is
/// dropped, and otherwise the maximal non-whitespace prefix is one token,
/// followed by the tokens of the rest.
pub open spec fn tokens_of(s: Seq<u8>) -> Seq<Seq<u8>>
    decreases s.len(),
    via tokens_of_decreases
{
    if s.len() == 0 {
        Seq::empty()
    } else if is_ws(s[0]) {
        tokens_of(s.drop_first())
    } else {
        seq![s.take(token_len(s) as int)] + tokens_of(s.skip(token_len(s) as int))
    }
}

#[via_fn]
proof fn tokens_of_decreases(s: Seq<u8>) {
    if s.len() != 0 && !is_ws(s[0]) {
        lemma_token_len_le(s);
        assert(token_len(s) >= 1);
    }
}

/// The byte strings that a sequence of token buffers holds.
pub open spec fn views_of(ts: Seq<Vec<u8>>) -> Seq<Seq<u8>> {
    ts.map_values(|t: Vec<u8>| t@)
}

/// Dropping one leading whitespace byte leaves the tokens unchanged.
proof fn lemma_tokens_skip_ws(s: Seq<u8>, i: int)
    requires
        0 <= i < s.len(),
        is_ws(s[i]),
    ensures
        tokens_of(s.skip(i)) == tokens_of(s.skip(i + 1)),
{
    assert(s.skip(i).drop_first() =~= s.skip(i + 1));
}

/// The maximal non-whitespace prefix has the length of the non-whitespace
/// run that starts the sequence.
proof fn lemma_token_len_run(t: Seq<u8>, k: int)
    requires
        0 <= k <= t.len(),
        forall|j: int| 0 <= j < k ==> !is_ws(#[trigger] t[j]),
        k == t.len() || is_ws(t[k]),
    ensures
        token_len(t) == k,
    decreases k,
{
    if k != 0 {
        lemma_token_len_run(t.drop_first(), k - 1);
    }
}

/// A maximal non-whitespace run is the first token of the suffix where it
/// starts.
proof fn lemma_token_peel(s: Seq<u8>, start: int, end: int)
    requires
        0 <= start < end <= s.len(),
        forall|j: int| start <= j < end ==> !is_ws(#[trigger] s[j]),
        end == s.len() || is_ws(s[end]),
    ensures
        tokens_of(s.skip(start)) == seq![s.subrange(start, end)] + tokens_of(s.skip(end)),
{
    let t = s.skip(start);
    lemma_token_len_run(t, end - start);
    assert(t.take(end - start) =~= s.subrange(start, end));
    assert(t.skip(end - start) =~= s.skip(end));
}

/// Splits a byte string into its whitespace-separated tokens, preserving
/// their order.
pub fn split_whitespace_bytes(s: &Vec<u8>) -> (r: Vec<Vec<u8>>)
    ensures
        views_of(r@) == tokens_of(s@),
{
    let mut out: Vec<Vec<u8>> = Vec::new();
    let mut i: usize = 0;
    proof {
        assert(s@.skip(0) =~= s@);
        assert(views_of(out@) + tokens_of(s@) =~~= tokens_of(s@));
    }
    while i < s.len()
        invariant
            i <= s@.len(),
            views_of(out@) + tokens_of(s@.skip(i as int)) == tokens_of(s@),
        decreases s@.len() - i,
    {
        if is_whitespace_byte(s[i]) {
            proof {
                lemma_tokens_skip_ws(s@, i as int);
            }
            i = i + 1;
        } else {
            let start = i;
            while i < s.len() && !(s[i] == 32 || s[i] == 9 || s[i] == 10 || s[i] == 11 || s[i]
                == 12 || s[i] == 13)
                invariant
                    start <= i <= s@.len(),
                    forall|j: int| start <= j < i ==> !is_ws(#[trigger] s@[j]),
                decreases s@.len() - i,
            {
                i = i + 1;
            }
            let mut tok: Vec<u8> = Vec::new();
            let mut k = start;
            while k < i
                invariant
                    start <= k <= i <= s@.len(),
                    tok@ =~= s@.subrange(start as int, k as int),
                decreases i - k,
            {
                tok.push(s[k]);
                proof {
                    assert(tok@ =~= s@.subrange(start as int, k as int + 1));
                }
                k = k + 1;
            }
            let ghost prev = out@;
            let ghost tview = tok@;
            out.push(tok);
            proof {
                lemma_token_peel(s@, start as int, i as int);
                assert(views_of(prev.push(tok)) =~~= views_of(prev) + seq![tview]);
                assert(views_of(out@) + tokens_of(s@.skip(i as int)) =~~= tokens_of(s@));
            }
        }
    }
    proof {
        assert(s@.skip(s@.len() as int) =~= Seq::<u8>::empty());
        assert(views_of(out@) + tokens_of(s@.skip(i as int)) =~~= views_of(out@));
    }
    out
}

} // verus!
