//! Hex text for curve points.
//!
//! A point's text form is the lowercase hex of its canonical compressed
//! encoding; decoding validates the bytes and yields a point of the curve.
use crate::curve::{compressed_of, on_curve, point_of_compressed, secp_deserialize_compressed,
    secp_serialize_compressed, SecpPoint};
use crate::hex_codec::{hex_decode, hex_decode_spec, hex_encode, hex_encode_spec, is_valid_hex,
    lemma_hex_round_trip};
use vstd::prelude::*;

verus! {

/// What decoding hex text to a point yields: `Some` exactly on hex text
/// whose bytes begin with a valid 33-byte compressed encoding (the curve's
/// reader ignores bytes past the first 33).
pub open spec fn point_of_hex(h: Seq<u8>) -> Option<SecpPoint> {
    if !is_valid_hex(h) {
        None
    } else {
        point_of_compressed(hex_decode_spec(h))
    }
}

/// The lowercase hex text of a point's canonical compressed encoding:
/// 66 hex digits. On points of the curve, `point_from_compressed_hex`
/// inverts it.
pub fn point_to_compressed_hex(p: &SecpPoint) -> (r: Vec<u8>)
    ensures
        r@ == hex_encode_spec(compressed_of(*p)),
        r@.len() == 66,
        on_curve(*p) ==> point_of_hex(r@) == Some(*p),
{
    let bytes = secp_serialize_compressed(p);
    let h = hex_encode(&bytes);
    proof {
        lemma_hex_round_trip(bytes@);
    }
    h
}

/// Decodes the hex text of a compressed encoding back into the point it
/// encodes: `Some` exactly where `point_of_hex` is, and on the output of
/// `point_to_compressed_hex` for a point of the curve it returns that
/// point.
pub fn point_from_compressed_hex(h: &Vec<u8>) -> (r: Option<SecpPoint>)
    ensures
        r == point_of_hex(h@),
        r matches Some(p) ==> on_curve(p),
{
    match hex_decode(h) {
        Some(bytes) => secp_deserialize_compressed(&bytes),
        None => None,
    }
}

/// Round trip: encoding a point of the curve to its compressed hex form
/// and decoding that form yields the point itself.
pub proof fn lemma_point_hex_round_trip(p: SecpPoint, h: Seq<u8>)
    requires
        on_curve(p),
        h == hex_encode_spec(compressed_of(p)),
        point_of_compressed(compressed_of(p)) == Some(p),
    ensures
        point_of_hex(h) == Some(p),
{
    lemma_hex_round_trip(compressed_of(p));
}

} // verus!
