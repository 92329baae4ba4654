//! Deterministic hash-to-curve derivation by try-and-increment.
//!
//! A seed byte string is extended by a single counter byte, hashed with
//! SHA-256, and the digest is offered to the curve's byte embedding; the
//! first counter in `0..=255` whose digest embeds gives the derived point.
//! The search is deterministic and bounded: it makes at most 256 attempts.
use crate::curve::{on_curve, point_of_random_bytes, secp_base_generator, secp_from_random_bytes,
    SecpPoint};
use crypto::digest::Digest;
use vstd::prelude::*;

verus! {

/// What the SHA-256 digest of a byte string is. Relied on to be a function
/// of the input bytes alone, 32 bytes long.
pub uninterp spec fn sha256_of(b: Seq<u8>) -> Seq<u8>;

/// Relies on `crypto::sha2::Sha256` of the rust-crypto crate: the SHA-256
/// digest of the input bytes, 32 bytes long, depending on the input alone.
#[verifier::external_body]
fn sha256(data: &Vec<u8>) -> (r: Vec<u8>)
    ensures
        r@ == sha256_of(data@),
        r@.len() == 32,
{
    let mut sha = crypto::sha2::Sha256::new();
    sha.input(data.as_slice());
    let mut buf = [0u8; 32];
    sha.result(&mut buf);
    buf.to_vec()
}

/// The candidate point that counter byte `i` yields for `seed`: the
/// curve's embedding of the SHA-256 digest of `seed` followed by `i`.
pub open spec fn tai_attempt(seed: Seq<u8>, i: int) -> Option<SecpPoint> {
    point_of_random_bytes(sha256_of(seed.push(i as u8)))
}

/// The first successful attempt for `seed` at a counter in `[i, 256)`, if
/// there is one.
pub open spec fn tai_search(seed: Seq<u8>, i: int) -> Option<SecpPoint>
    decreases 256 - i,
{
    if i >= 256 {
        None
    } else {
        match tai_attempt(seed, i) {
            Some(p) => Some(p),
            None => tai_search(seed, i + 1),
        }
    }
}

/// The point that try-and-increment derivation yields for `seed`: the
/// attempt at the lowest counter byte that succeeds, if any does.
pub open spec fn derived_point(seed: Seq<u8>) -> Option<SecpPoint> {
    tai_search(seed, 0)
}

/// Derives a curve point from a seed by bounded try-and-increment: at most
/// 256 SHA-256 attempts, returning the first that embeds, and `None` only
/// when every counter byte fails (which no real seed is expected to hit).
pub fn affine_from_bytes_tai(bytes: &Vec<u8>) -> (r: Option<SecpPoint>)
    ensures
        r == derived_point(bytes@),
        r matches Some(p) ==> on_curve(p),
{
    let mut i: u16 = 0;
    while i < 256
        invariant
            i <= 256,
            tai_search(bytes@, 0) == tai_search(bytes@, i as int),
        decreases 256 - i,
    {
        let mut msg = vstd::slice::slice_to_vec(bytes.as_slice());
        msg.push(i as u8);
        proof {
            assert(i as u8 == (i as int) as u8) by (bit_vector)
                requires
                    i < 256,
            ;
        }
        let digest = sha256(&msg);
        let candidate = secp_from_random_bytes(&digest);
        match candidate {
            Some(p) => {
                return Some(p);
            },
            None => {},
        }
        i = i + 1;
    }
    None
}

/// The fixed seed of the secondary generator `J`: the bytes of the domain
/// separation tag `this is J`.
pub open spec fn j_tag() -> Seq<u8> {
    seq![116u8, 104u8, 105u8, 115u8, 32u8, 105u8, 115u8, 32u8, 74u8]
}

/// The domain separation tag of `J`, as a byte buffer.
pub fn j_tag_bytes() -> (r: Vec<u8>)
    ensures
        r@ == j_tag(),
{
    let mut v: Vec<u8> = Vec::new();
    v.push(116);
    v.push(104);
    v.push(105);
    v.push(115);
    v.push(32);
    v.push(105);
    v.push(115);
    v.push(32);
    v.push(74);
    proof {
        assert(v@ =~= j_tag());
    }
    v
}

/// The protocol's fixed generator pair `(G, J)`: `G` is the curve's
/// canonical base generator, `J` is derived from the fixed tag `this is J`
/// by try-and-increment. `None` only when derivation exhausts every
/// counter byte.
pub fn get_generators() -> (r: Option<(SecpPoint, SecpPoint)>)
    ensures
        r matches Some(gj) ==> {
            &&& on_curve(gj.0)
            &&& crate::curve::is_base_generator(gj.0)
            &&& forall|q: SecpPoint| crate::curve::is_base_generator(q) ==> q == gj.0
            &&& Some(gj.1) == derived_point(j_tag())
            &&& on_curve(gj.1)
        },
        r is None <==> derived_point(j_tag()) is None,
{
    let g = secp_base_generator();
    let tag = j_tag_bytes();
    match affine_from_bytes_tai(&tag) {
        Some(j) => Some((g, j)),
        None => None,
    }
}

/// Determinism of derivation: the derived point is a function of the seed
/// bytes alone, so two derivations from equal seeds agree, and their
/// compressed encodings are identical.
pub proof fn lemma_derive_deterministic(seed: Seq<u8>, r1: Option<SecpPoint>, r2: Option<SecpPoint>)
    requires
        r1 == derived_point(seed),
        r2 == derived_point(seed),
    ensures
        r1 == r2,
        r1 matches Some(p1) ==> r2 matches Some(p2) && crate::curve::compressed_of(p1)
            == crate::curve::compressed_of(p2),
{
}

/// Bounded search: derivation succeeds exactly when some counter byte in
/// `0..=255` gives a digest that embeds into the curve.
pub proof fn lemma_derive_bounded(seed: Seq<u8>)
    ensures
        derived_point(seed) is Some <==> exists|i: int|
            0 <= i < 256 && (#[trigger] tai_attempt(seed, i)) is Some,
{
    lemma_search_window(seed, 0);
}

/// The search over `[i, 256)` succeeds exactly when some attempt in that
/// window does.
proof fn lemma_search_window(seed: Seq<u8>, i: int)
    requires
        0 <= i <= 256,
    ensures
        tai_search(seed, i) is Some <==> exists|j: int|
            i <= j < 256 && (#[trigger] tai_attempt(seed, j)) is Some,
    decreases 256 - i,
{
    if i < 256 {
        lemma_search_window(seed, i + 1);
    }
}

/// Lowest counter wins: if attempt `i` succeeds and every lower counter
/// fails, the derived point is attempt `i`'s.
pub proof fn lemma_derive_first_success(seed: Seq<u8>, i: int)
    requires
        0 <= i < 256,
        tai_attempt(seed, i) is Some,
        forall|j: int| 0 <= j < i ==> (#[trigger] tai_attempt(seed, j)) is None,
    ensures
        derived_point(seed) == tai_attempt(seed, i),
{
    lemma_search_from(seed, 0, i);
}

/// Searching from any lower bound below a first success lands on it.
proof fn lemma_search_from(seed: Seq<u8>, k: int, i: int)
    requires
        0 <= k <= i < 256,
        tai_attempt(seed, i) is Some,
        forall|j: int| k <= j < i ==> (#[trigger] tai_attempt(seed, j)) is None,
    ensures
        tai_search(seed, k) == tai_attempt(seed, i),
    decreases i - k,
{
    if k < i {
        lemma_search_from(seed, k + 1, i);
    }
}

} // verus!
