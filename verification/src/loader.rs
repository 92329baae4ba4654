//! Leaf commitment loading.
//!
//! A leaf commitment file is whitespace-separated hex tokens; each token
//! hex-decodes to a byte buffer whose reversal the curve's byte embedding
//! turns into a point. Loading is all-or-nothing: the first bad token
//! fails the whole load, and no points are handed out.
use crate::curve::{on_curve, point_of_random_bytes, secp_from_random_bytes, SecpPoint};
use crate::hex_codec::{hex_decode, hex_decode_spec, hex_encode_spec, is_valid_hex,
    lemma_hex_round_trip};
use crate::tokens::{split_whitespace_bytes, tokens_of, views_of};
use vstd::prelude::*;

verus! {

/// Why a load failed: a token that is not hex text, or hex bytes that do
/// not embed into a curve point.
#[derive(Clone, Copy, Debug, PartialEq, Eq, Structural)]
pub enum LeafError {
    InvalidHex,
    InvalidPoint,
}

/// What one token yields: the point embedded from the reversal of its
/// hex-decoded bytes, or the error naming what failed first.
pub open spec fn leaf_result(t: Seq<u8>) -> Result<SecpPoint, LeafError> {
    if !is_valid_hex(t) {
        Err(LeafError::InvalidHex)
    } else {
        match point_of_random_bytes(hex_decode_spec(t).reverse()) {
            Some(p) => Ok(p),
            None => Err(LeafError::InvalidPoint),
        }
    }
}

/// What a token sequence loads to: every token's point, in token order, or
/// the error of the first token that fails.
pub open spec fn load_result(ts: Seq<Seq<u8>>) -> Result<Seq<SecpPoint>, LeafError>
    decreases ts.len(),
{
    if ts.len() == 0 {
        Ok(Seq::empty())
    } else {
        match leaf_result(ts[0]) {
            Err(e) => Err(e),
            Ok(p) => match load_result(ts.drop_first()) {
                Ok(rest) => Ok(seq![p] + rest),
                Err(e) => Err(e),
            },
        }
    }
}

/// Length preservation: a successful load returns exactly one point per
/// token.
pub proof fn lemma_load_length(ts: Seq<Seq<u8>>, ps: Seq<SecpPoint>)
    requires
        load_result(ts) == Ok::<Seq<SecpPoint>, LeafError>(ps),
    ensures
        ps.len() == ts.len(),
    decreases ts.len(),
{
    if ts.len() != 0 {
        let rest = load_result(ts.drop_first()) ->Ok_0;
        lemma_load_length(ts.drop_first(), rest);
    }
}

/// Order preservation: a successful load returns at position `i` exactly
/// the point of token `i`, with no reordering, dropping or deduplication.
pub proof fn lemma_load_order(ts: Seq<Seq<u8>>, ps: Seq<SecpPoint>, i: int)
    requires
        load_result(ts) == Ok::<Seq<SecpPoint>, LeafError>(ps),
        0 <= i < ts.len(),
    ensures
        leaf_result(ts[i]) == Ok::<SecpPoint, LeafError>(ps[i]),
    decreases i,
{
    lemma_load_length(ts, ps);
    if i == 0 {
    } else {
        let rest = load_result(ts.drop_first()) ->Ok_0;
        lemma_load_order(ts.drop_first(), rest, i - 1);
    }
}

/// A sequence whose every token loads, loads to exactly those points.
proof fn lemma_load_all_ok(ts: Seq<Seq<u8>>, ps: Seq<SecpPoint>)
    requires
        ps.len() == ts.len(),
        forall|k: int| 0 <= k < ts.len() ==> leaf_result(#[trigger] ts[k]) == Ok::<
            SecpPoint,
            LeafError,
        >(ps[k]),
    ensures
        load_result(ts) == Ok::<Seq<SecpPoint>, LeafError>(ps),
    decreases ts.len(),
{
    if ts.len() == 0 {
        assert(ps =~= Seq::<SecpPoint>::empty());
    } else {
        assert forall|k: int| 0 <= k < ts.drop_first().len() implies leaf_result(
            #[trigger] ts.drop_first()[k],
        ) == Ok::<SecpPoint, LeafError>(ps.drop_first()[k]) by {
            assert(ts.drop_first()[k] == ts[k + 1]);
            assert(ps.drop_first()[k] == ps[k + 1]);
        }
        lemma_load_all_ok(ts.drop_first(), ps.drop_first());
        assert(leaf_result(ts[0]) == Ok::<SecpPoint, LeafError>(ps[0]));
        assert(seq![ps[0]] + ps.drop_first() =~= ps);
        assert(load_result(ts) == Ok::<Seq<SecpPoint>, LeafError>(seq![ps[0]] + ps.drop_first()));
    }
}

/// A sequence whose first failing token is at `j` loads to that token's
/// error.
proof fn lemma_load_first_err(ts: Seq<Seq<u8>>, j: int, e: LeafError)
    requires
        0 <= j < ts.len(),
        forall|k: int| 0 <= k < j ==> leaf_result(#[trigger] ts[k]) is Ok,
        leaf_result(ts[j]) == Err::<SecpPoint, LeafError>(e),
    ensures
        load_result(ts) == Err::<Seq<SecpPoint>, LeafError>(e),
    decreases j,
{
    if j != 0 {
        lemma_load_first_err(ts.drop_first(), j - 1, e);
    }
}

/// Reversing twice gives the sequence back.
proof fn lemma_reverse_involution(s: Seq<u8>)
    ensures
        s.reverse().reverse() == s,
{
    assert(s.reverse().reverse() =~= s);
}

/// A stored token always loads: hex-encoding the byte-reversed compressed
/// encoding of an on-curve point gives a token that the loader accepts,
/// yielding the point the curve's embedding assigns to that encoding.
/// (The embedding reads the y-sign flag under the convention opposite to
/// the serializer's, so that point may be the negation of the stored one;
/// the codec's `point_from_compressed_hex` is the exact inverse.)
pub proof fn lemma_stored_token_loads(p: SecpPoint, b: Seq<u8>)
    requires
        on_curve(p),
        b == crate::curve::compressed_of(p),
        point_of_random_bytes(b) is Some,
    ensures
        leaf_result(hex_encode_spec(b.reverse())) == Ok::<SecpPoint, LeafError>(
            point_of_random_bytes(b).unwrap(),
        ),
{
    let token = hex_encode_spec(b.reverse());
    lemma_hex_round_trip(b.reverse());
    lemma_reverse_involution(b);
    assert(hex_decode_spec(token).reverse() == b);
}

/// Reverses a byte buffer.
pub fn reversed_bytes(v: &Vec<u8>) -> (r: Vec<u8>)
    ensures
        r@ == v@.reverse(),
{
    let mut r: Vec<u8> = Vec::new();
    let mut k: usize = 0;
    while k < v.len()
        invariant
            k <= v@.len(),
            r@.len() == k,
            forall|j: int| 0 <= j < k ==> #[trigger] r@[j] == v@[v@.len() - 1 - j],
        decreases v@.len() - k,
    {
        r.push(v[v.len() - 1 - k]);
        k = k + 1;
    }
    proof {
        assert(r@ =~= v@.reverse());
    }
    r
}

/// Decodes the leaf commitments held in a commitment file's bytes.
///
/// The file's whitespace-separated tokens (ASCII whitespace, as the
/// `tokens` module defines it) are taken in order; each is
/// hex-decoded, its byte buffer reversed (the stored byte order is the
/// inverse of what the curve's embedding expects), and embedded into a
/// point. Either every token yields a point — returned in token order —
/// or the whole load fails with the first token's error and no points are
/// returned.
pub fn get_leaf_commitments(contents: &Vec<u8>) -> (r: Result<Vec<SecpPoint>, LeafError>)
    ensures
        match r {
            Ok(ps) => load_result(tokens_of(contents@)) == Ok::<Seq<SecpPoint>, LeafError>(ps@)
                && forall|i: int| 0 <= i < ps@.len() ==> on_curve(#[trigger] ps@[i]),
            Err(e) => load_result(tokens_of(contents@)) == Err::<Seq<SecpPoint>, LeafError>(e),
        },
{
    let tokens = split_whitespace_bytes(contents);
    let ghost ts = tokens_of(contents@);
    let mut points: Vec<SecpPoint> = Vec::new();
    let mut idx: usize = 0;
    while idx < tokens.len()
        invariant
            idx <= tokens@.len(),
            ts == tokens_of(contents@),
            views_of(tokens@) == ts,
            points@.len() == idx,
            forall|k: int| 0 <= k < idx ==> leaf_result(#[trigger] ts[k]) == Ok::<
                SecpPoint,
                LeafError,
            >(points@[k]),
            forall|k: int| 0 <= k < idx ==> on_curve(#[trigger] points@[k]),
        decreases tokens@.len() - idx,
    {
        let token = &tokens[idx];
        proof {
            assert(ts[idx as int] == tokens@[idx as int]@);
        }
        let decoded = match hex_decode(token) {
            Some(d) => d,
            None => {
                proof {
                    lemma_load_first_err(ts, idx as int, LeafError::InvalidHex);
}
                return Err(LeafError::InvalidHex);
            },
        };
        let rev = reversed_bytes(&decoded);
        let point = match secp_from_random_bytes(&rev) {
            Some(p) => p,
            None => {
                proof {
                    lemma_load_first_err(ts, idx as int, LeafError::InvalidPoint);
                }
                return Err(LeafError::InvalidPoint);
            },
        };
        points.push(point);
        idx = idx + 1;
    }
    proof {
        lemma_load_all_ok(ts, points@);
    }
    Ok(points)
}

} // verus!
