//! Trusted boundary to the arkworks secp256k1 curve implementation.
//!
//! A `SecpPoint` carries an affine secp256k1 point; it is opaque to the
//! verifier, and everything the library states about points goes through
//! the named results and the contracts of the wrappers declared here.
use ark_ec::short_weierstrass::SWCurveConfig;
use vstd::prelude::*;

verus! {

/// An element of the secp256k1 curve group in affine coordinates.
///
/// Holds `ark_ec::short_weierstrass::Affine<ark_secp256k1::Config>`;
/// equality of `SecpPoint` values is group-element equality, which the
/// `point_eq` wrapper decides.
#[verifier::external_body]
pub struct SecpPoint {
    inner: ark_ec::short_weierstrass::Affine<ark_secp256k1::Config>,
}

/// Holds of every point value handed out by this module: the point lies on
/// the curve (or is the point at infinity in its canonical representation).
pub uninterp spec fn on_curve(p: SecpPoint) -> bool;

/// Holds of exactly one point: the curve's canonical base generator, the
/// fixed constant `ark_secp256k1::Config::GENERATOR`.
pub uninterp spec fn is_base_generator(p: SecpPoint) -> bool;

/// The canonical compressed byte encoding of a point, as
/// `CanonicalSerialize::serialize_compressed` produces it: 33 bytes, the
/// x-coordinate in little-endian order with y-sign/infinity flags in the
/// top bits of the last byte.
pub uninterp spec fn compressed_of(p: SecpPoint) -> Seq<u8>;

/// What `CanonicalDeserialize::deserialize_compressed` returns on the given
/// bytes: `Some` exactly on inputs that begin with a valid 33-byte
/// compressed encoding (the reader takes the first 33 bytes and ignores
/// any trailing ones).
pub uninterp spec fn point_of_compressed(b: Seq<u8>) -> Option<SecpPoint>;

/// What `AffineRepr::from_random_bytes` returns on the given bytes: the
/// curve's embedding of candidate byte strings, used by hash-to-curve
/// derivation and by the leaf commitment decoder.
pub uninterp spec fn point_of_random_bytes(b: Seq<u8>) -> Option<SecpPoint>;

/// Relies on `ark_secp256k1::Config::GENERATOR`, the curve's canonical base
/// generator: a fixed on-curve constant, the same point on every call.
#[verifier::external_body]
pub(crate) fn secp_base_generator() -> (r: SecpPoint)
    ensures
        on_curve(r),
        is_base_generator(r),
        forall|q: SecpPoint| is_base_generator(q) ==> q == r,
{
    SecpPoint { inner: ark_secp256k1::Config::GENERATOR }
}

/// Relies on `PartialEq` of `ark_ec::short_weierstrass::Affine`, which
/// decides group-element equality.
#[verifier::external_body]
pub fn point_eq(a: &SecpPoint, b: &SecpPoint) -> (r: bool)
    ensures
        r == (*a == *b),
{
    a.inner == b.inner
}

/// Relies on `ark_ec::short_weierstrass::Affine` being `Copy`.
#[verifier::external_body]
pub fn point_clone(p: &SecpPoint) -> (r: SecpPoint)
    ensures
        r == *p,
{
    SecpPoint { inner: p.inner }
}

/// Relies on `ark_ec::AffineRepr::from_random_bytes`: a deterministic
/// function of the input bytes alone, returning an on-curve point (or the
/// canonical identity) whenever it returns one at all.
#[verifier::external_body]
pub(crate) fn secp_from_random_bytes(b: &Vec<u8>) -> (r: Option<SecpPoint>)
    ensures
        r == point_of_random_bytes(b@),
        r matches Some(p) ==> on_curve(p),
{
    <ark_ec::short_weierstrass::Affine<ark_secp256k1::Config> as ark_ec::AffineRepr>
        ::from_random_bytes(b.as_slice())
        .map(|inner| SecpPoint { inner })
}

/// Relies on `ark_serialize::CanonicalSerialize::serialize_compressed` for
/// short Weierstrass points: writing into a `Vec` cannot fail, the output
/// for secp256k1 is 33 bytes, and `deserialize_compressed` inverts it on
/// on-curve points. `from_random_bytes` also accepts every such encoding,
/// but is no inverse: it reads the y-sign flag under the convention
/// opposite to the serializer's, so the point it embeds may be the
/// negation of the one stored.
#[verifier::external_body]
pub(crate) fn secp_serialize_compressed(p: &SecpPoint) -> (r: Vec<u8>)
    ensures
        r@ == compressed_of(*p),
        r@.len() == 33,
        on_curve(*p) ==> point_of_compressed(r@) == Some(*p),
        on_curve(*p) ==> point_of_random_bytes(r@) is Some,
{
    let mut b = Vec::new();
    ark_serialize::CanonicalSerialize::serialize_compressed(&p.inner, &mut b)
        .expect("Failed to serialize point");
    b
}

/// Relies on `ark_serialize::CanonicalDeserialize::deserialize_compressed`:
/// a deterministic function of the input bytes, validating that the decoded
/// point lies on the curve.
#[verifier::external_body]
pub(crate) fn secp_deserialize_compressed(b: &Vec<u8>) -> (r: Option<SecpPoint>)
    ensures
        r == point_of_compressed(b@),
        r matches Some(p) ==> on_curve(p),
{
    ark_serialize::CanonicalDeserialize::deserialize_compressed(b.as_slice())
        .ok()
        .map(|inner| SecpPoint { inner })
}

} // verus!
