//! Hex text for byte strings.
//!
//! The specs pin down the classic encoding: two digits per byte, high
//! nibble first, lowercase on output, either case accepted on input. The
//! executable conversions call the `hex` crate through trusted wrappers
//! whose contracts state exactly these specs.
use vstd::prelude::*;

verus! {

/// An ASCII hex digit: `0-9`, `a-f` or `A-F`.
pub open spec fn is_hex_digit(b: u8) -> bool {
    (48 <= b && b <= 57) || (97 <= b && b <= 102) || (65 <= b && b <= 70)
}

/// The value of an ASCII hex digit.
pub open spec fn hex_digit_value(b: u8) -> u8
    recommends
        is_hex_digit(b),
{
    if 48 <= b && b <= 57 {
        (b - 48) as u8
    } else if 97 <= b && b <= 102 {
        (b - 87) as u8
    } else if 65 <= b && b <= 70 {
        (b - 55) as u8
    } else {
        0
    }
}

/// The lowercase ASCII digit of a nibble value.
pub open spec fn hex_digit_of(v: u8) -> u8
    recommends
        v < 16,
{
    if v < 10 {
        (48 + v) as u8
    } else {
        (87 + v) as u8
    }
}

/// A byte string that hex-decodes: even length, hex digits throughout.
pub open spec fn is_valid_hex(s: Seq<u8>) -> bool {
    s.len() % 2 == 0 && forall|i: int| 0 <= i < s.len() ==> is_hex_digit(#[trigger] s[i])
}

/// The bytes a valid hex string denotes: one byte per digit pair, high
/// nibble first.
pub open spec fn hex_decode_spec(s: Seq<u8>) -> Seq<u8>
    recommends
        is_valid_hex(s),
{
    Seq::new((s.len() / 2) as nat, |i: int| (hex_digit_value(s[2 * i]) * 16 + hex_digit_value(s[2 * i + 1])) as u8)
}

/// The lowercase hex text of a byte string: two digits per byte, high
/// nibble first.
pub open spec fn hex_encode_spec(b: Seq<u8>) -> Seq<u8> {
    Seq::new(2 * b.len(), |i: int| if i % 2 == 0 {
        hex_digit_of(b[i / 2] / 16)
    } else {
        hex_digit_of(b[i / 2] % 16)
    })
}

/// Relies on `hex::encode`: lowercase output, two digits per byte, high
/// nibble first.
#[verifier::external_body]
pub(crate) fn hex_encode(b: &Vec<u8>) -> (r: Vec<u8>)
    ensures
        r@ == hex_encode_spec(b@),
{
    hex::encode(b.as_slice()).into_bytes()
}

/// Relies on `hex::decode`: accepts exactly the even-length strings of hex
/// digits of either case, and maps each digit pair to one byte, high
/// nibble first.
#[verifier::external_body]
pub(crate) fn hex_decode(s: &Vec<u8>) -> (r: Option<Vec<u8>>)
    ensures
        r is Some <==> is_valid_hex(s@),
        r matches Some(v) ==> v@ == hex_decode_spec(s@),
{
    hex::decode(s.as_slice()).ok()
}

/// Encoding always yields a decodable string, and decoding it gives the
/// original bytes back.
pub proof fn lemma_hex_round_trip(b: Seq<u8>)
    ensures
        is_valid_hex(hex_encode_spec(b)),
        hex_decode_spec(hex_encode_spec(b)) == b,
{
    let e = hex_encode_spec(b);
    assert forall|i: int| 0 <= i < e.len() implies is_hex_digit(#[trigger] e[i]) by {
        assert(b[i / 2] / 16 < 16 && b[i / 2] % 16 < 16);
    }
    assert forall|i: int| 0 <= i < b.len() implies hex_decode_spec(e)[i] == b[i] by {
        assert(e[2 * i] == hex_digit_of(b[i] / 16));
        assert(e[2 * i + 1] == hex_digit_of(b[i] % 16));
        assert(hex_digit_value(hex_digit_of(b[i] / 16)) == b[i] / 16);
        assert(hex_digit_value(hex_digit_of(b[i] % 16)) == b[i] % 16);
    }
    assert(hex_decode_spec(e) =~= b);
}

} // verus!
