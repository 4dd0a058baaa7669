use bloomfilter::Bloom;
use vstd::prelude::*;

use super::summary::{
    bloom_as_slice, bloom_bytes, bloom_from_slice, bloom_layout_ok,
};

verus! {

/// The lowercase hexadecimal digit of a value below sixteen.
pub open spec fn hex_digit(n: u8) -> char {
    if n < 10 {
        (n + 48) as char
    } else {
        (n + 87) as char
    }
}

/// The value of a hexadecimal digit of either case, if `c` is one.
pub open spec fn hex_value(c: char) -> Option<u8> {
    if '0' <= c && c <= '9' {
        Some((c as u32 - 48) as u8)
    } else if 'a' <= c && c <= 'f' {
        Some((c as u32 - 87) as u8)
    } else if 'A' <= c && c <= 'F' {
        Some((c as u32 - 55) as u8)
    } else {
        None
    }
}

/// Lowercase hex text of a byte string: two digits per byte, high nibble first.
pub open spec fn hex_text(b: Seq<u8>) -> Seq<char>
    decreases b.len(),
{
    if b.len() == 0 {
        Seq::empty()
    } else {
        seq![hex_digit(b[0] / 16), hex_digit(b[0] % 16)] + hex_text(b.drop_first())
    }
}

/// The bytes that a hex text stands for, or `None` where it has odd length or
/// a character that is no hex digit.
pub open spec fn hex_bytes(s: Seq<char>) -> Option<Seq<u8>>
    decreases s.len(),
{
    if s.len() == 0 {
        Some(Seq::empty())
    } else if s.len() == 1 {
        None
    } else {
        match (hex_value(s[0]), hex_value(s[1]), hex_bytes(s.subrange(2, s.len() as int))) {
            (Some(hi), Some(lo), Some(rest)) => Some(seq![(hi * 16 + lo) as u8] + rest),
            _ => None,
        }
    }
}

proof fn lemma_hex_digit_value(n: u8)
    requires
        n < 16,
    ensures
        hex_value(hex_digit(n)) == Some(n),
{
}

/// Hex text decodes back to the bytes it was made from.
pub proof fn lemma_hex_round_trip(b: Seq<u8>)
    ensures
        hex_bytes(hex_text(b)) == Some(b),
    decreases b.len(),
{
    if b.len() > 0 {
        let t = hex_text(b);
        let hi = b[0] / 16;
        let lo = b[0] % 16;
        lemma_hex_digit_value(hi);
        lemma_hex_digit_value(lo);
        lemma_hex_round_trip(b.drop_first());
        assert(t.subrange(2, t.len() as int) =~= hex_text(b.drop_first()));
        assert(seq![(hi * 16 + lo) as u8] + b.drop_first() =~= b);
    }
}

/// A filter's wire text decodes to a filter with the same bytes: the text is
/// valid hex of exactly those bytes, and they have the layout that decoding
/// accepts.
pub proof fn lemma_codec_round_trip(bytes: Seq<u8>)
    requires
        bloom_layout_ok(bytes),
    ensures
        hex_bytes(hex_text(bytes)) == Some(bytes),
        bloom_layout_ok(hex_bytes(hex_text(bytes))->Some_0),
{
    lemma_hex_round_trip(bytes);
}

/// `hex::FromHexError`, the error of `hex::decode`, carried through opaque.
#[verifier::external_type_specification]
#[verifier::external_body]
pub struct ExFromHexError(hex::FromHexError);

/// Relies on `hex::encode`: two lowercase digits per byte, high nibble first.
#[verifier::external_body]
fn encode_hex(b: &[u8]) -> (r: String)
    ensures
        r@ == hex_text(b@),
{
    hex::encode(b)
}

/// Relies on `hex::decode`: it accepts text of even length made of hex digits
/// of either case, and gives one byte per pair of digits.
#[verifier::external_body]
fn decode_hex(s: &str) -> (r: Result<Vec<u8>, hex::FromHexError>)
    ensures
        match r {
            Ok(v) => hex_bytes(s@) == Some(v@),
            Err(_) => hex_bytes(s@) is None,
        },
{
    hex::decode(s)
}

/// Why a filter's wire text was refused.
#[derive(Debug, Clone, Copy, PartialEq, Eq)]
pub enum BloomDecodeError {
    /// The text is not hex: odd length, or a character that is no hex digit.
    Hex,
    /// The bytes are not a filter: wrong header or wrong bitmap length.
    Layout,
}

/// The wire form of a filter: lowercase hex of its raw bytes.
pub fn serialize(bloom: &Bloom<u64>) -> (r: String)
    ensures
        r@ == hex_text(bloom_bytes(*bloom)),
        bloom_layout_ok(bloom_bytes(*bloom)),
{
    let bytes = bloom_as_slice(bloom);
    encode_hex(bytes)
}

/// Rebuilds a filter from its wire form, bit for bit.
pub fn deserialize(s: &str) -> (r: Result<Bloom<u64>, BloomDecodeError>)
    ensures
        match r {
            Ok(b) => hex_bytes(s@) == Some(bloom_bytes(b)),
            Err(BloomDecodeError::Hex) => hex_bytes(s@) is None,
            Err(BloomDecodeError::Layout) => hex_bytes(s@) is Some && !bloom_layout_ok(
                hex_bytes(s@)->Some_0,
            ),
        },
        r is Ok <==> (hex_bytes(s@) is Some && bloom_layout_ok(hex_bytes(s@)->Some_0)),
{
    let bytes = match decode_hex(s) {
        Ok(v) => v,
        Err(_) => {
            return Err(BloomDecodeError::Hex);
        },
    };
    match bloom_from_slice(bytes.as_slice()) {
        Ok(b) => Ok(b),
        Err(_) => Err(BloomDecodeError::Layout),
    }
}

} // verus!
