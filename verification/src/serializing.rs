//! Hexadecimal encoding and decoding of fixed-width byte strings, as used
//! for keys and addresses on the wire and in user-facing APIs.

use vstd::prelude::*;
use vstd::string::StringSliceAdditionalSpecFns;

use crate::errors::{IronfishError, IronfishErrorKind};

verus! {

/// Whether `c` is an ASCII hexadecimal digit (either case).
pub open spec fn is_hex_digit(c: u8) -> bool {
    (48 <= c <= 57) || (97 <= c <= 102) || (65 <= c <= 70)
}

/// The numeric value of an ASCII hexadecimal digit.
pub open spec fn hex_digit_value(c: u8) -> u8
    recommends
        is_hex_digit(c),
{
    if 48 <= c <= 57 {
        (c - 48) as u8
    } else if 97 <= c <= 102 {
        (c - 97 + 10) as u8
    } else {
        (c - 65 + 10) as u8
    }
}

/// The byte string that a sequence of hexadecimal digits denotes: each
/// consecutive digit pair becomes one byte, high digit first.
pub open spec fn spec_from_hex(s: Seq<u8>, size: nat) -> Seq<u8>
    recommends
        s.len() == 2 * size,
{
    Seq::new(size, |i: int| (hex_digit_value(s[2 * i]) * 16 + hex_digit_value(s[2 * i + 1])) as u8)
}

/// The lower-case ASCII hexadecimal digit for a value below 16.
pub open spec fn hex_char_byte(v: u8) -> u8
    recommends
        v < 16,
{
    if v < 10 {
        (48 + v) as u8
    } else {
        (87 + v) as u8
    }
}

/// The lower-case hexadecimal encoding of a byte string, as ASCII bytes.
pub open spec fn spec_to_hex_bytes(b: Seq<u8>) -> Seq<u8> {
    Seq::new(
        2 * b.len(),
        |i: int|
            if i % 2 == 0 {
                hex_char_byte(b[i / 2] / 16)
            } else {
                hex_char_byte((b[i / 2] % 16) as u8)
            },
    )
}

/// The lower-case hexadecimal encoding of a byte string, as text.
pub open spec fn spec_to_hex(b: Seq<u8>) -> Seq<char> {
    spec_to_hex_bytes(b).map_values(|c: u8| c as char)
}

/// Reads one ASCII hexadecimal digit, rejecting every other byte.
pub fn hex_to_u8(char: u8) -> (r: Result<u8, IronfishError>)
    ensures
        r is Ok <==> is_hex_digit(char),
        r matches Ok(v) ==> v == hex_digit_value(char) && v < 16,
        r matches Err(e) ==> e.kind == IronfishErrorKind::InvalidData,
{
    if 48 <= char && char <= 57 {
        Ok(char - 48)
    } else if 97 <= char && char <= 102 {
        Ok(char - 97 + 10)
    } else if 65 <= char && char <= 70 {
        Ok(char - 65 + 10)
    } else {
        Err(IronfishError::new(IronfishErrorKind::InvalidData))
    }
}

/// Decodes a hexadecimal string into exactly `size` bytes. A string of the
/// wrong length or with a non-digit byte is rejected as `InvalidData`.
pub fn hex_to_bytes(hex: &str, size: usize) -> (r: Result<Vec<u8>, IronfishError>)
    requires
        size <= usize::MAX / 2,
    ensures
        r is Ok <==> (hex.spec_bytes().len() == 2 * size && forall|i: int|
            0 <= i < 2 * size ==> is_hex_digit(#[trigger] hex.spec_bytes()[i])),
        r matches Ok(b) ==> b@ == spec_from_hex(hex.spec_bytes(), size as nat),
        r matches Err(e) ==> e.kind == IronfishErrorKind::InvalidData,
{
    let s = hex.as_bytes();
    if s.len() != 2 * size {
        return Err(IronfishError::new(IronfishErrorKind::InvalidData));
    }
    let mut bytes: Vec<u8> = Vec::new();
    let mut i: usize = 0;
    while i < size
        invariant
            i <= size,
            size <= usize::MAX / 2,
            s@.len() == 2 * size,
            s@ == hex.spec_bytes(),
            bytes@.len() == i,
            forall|j: int| 0 <= j < 2 * i ==> is_hex_digit(#[trigger] s@[j]),
            forall|j: int|
                0 <= j < i ==> bytes@[j] == (hex_digit_value(s@[2 * j]) * 16 + hex_digit_value(
                    s@[2 * j + 1],
                )) as u8,
        decreases size - i,
    {
        let hi = match hex_to_u8(s[2 * i]) {
            Ok(v) => v,
            Err(e) => { return Err(e) },
        };
        let lo = match hex_to_u8(s[2 * i + 1]) {
            Ok(v) => v,
            Err(e) => { return Err(e) },
        };
        assert(hi < 16 && lo < 16 ==> (hi << 4 | lo) == hi * 16 + lo) by (bit_vector);
        bytes.push(hi << 4 | lo);
        i = i + 1;
    }
    proof {
        assert(bytes@ =~= spec_from_hex(hex.spec_bytes(), size as nat));
        assert forall|j: int| 0 <= j < 2 * size implies is_hex_digit(#[trigger] hex.spec_bytes()[j]) by {
            if j % 2 == 0 {
                assert(is_hex_digit(hex.spec_bytes()[2 * (j / 2)]));
            } else {
                assert(is_hex_digit(hex.spec_bytes()[2 * (j / 2) + 1]));
            }
        }
    }
    Ok(bytes)
}

/// Builds a `String` from bytes that are all ASCII.
///
/// Relies on `String::from_utf8`: ASCII bytes are valid UTF-8 and decode to
/// the characters with the same code points.
#[verifier::external_body]
fn ascii_string(bytes: &Vec<u8>) -> (r: String)
    requires
        forall|i: int| 0 <= i < bytes@.len() ==> bytes@[i] < 128,
    ensures
        r@ == bytes@.map_values(|c: u8| c as char),
{
    String::from_utf8(bytes.clone()).unwrap_or_default()
}

/// Encodes bytes as a lower-case hexadecimal string.
pub fn bytes_to_hex(bytes: &[u8]) -> (r: String)
    requires
        bytes@.len() <= usize::MAX / 2,
    ensures
        r@ == spec_to_hex(bytes@),
{
    let mut out: Vec<u8> = Vec::new();
    let mut i: usize = 0;
    while i < bytes.len()
        invariant
            i <= bytes@.len(),
            bytes@.len() <= usize::MAX / 2,
            out@.len() == 2 * i,
            forall|j: int| 0 <= j < 2 * i ==> out@[j] == spec_to_hex_bytes(bytes@)[j],
            forall|j: int| 0 <= j < 2 * i ==> out@[j] < 128,
        decreases bytes@.len() - i,
    {
        let b = bytes[i];
        let hi = b / 16;
        let lo = b % 16;
        let hi_c = if hi < 10 {
            48 + hi
        } else {
            87 + hi
        };
        let lo_c = if lo < 10 {
            48 + lo
        } else {
            87 + lo
        };
        out.push(hi_c);
        out.push(lo_c);
        i = i + 1;
    }
    proof {
        assert(out@ =~= spec_to_hex_bytes(bytes@));
        assert(out@.map_values(|c: u8| c as char) =~= spec_to_hex(bytes@));
    }
    ascii_string(&out)
}

/// Encodes bytes as a lower-case hexadecimal string through the hex crate.
///
/// Relies on `hex::encode`: the output is the lower-case hexadecimal
/// digits of the input bytes, two per byte, high digit first.
#[verifier::external_body]
pub fn encode_hex(data: &[u8]) -> (r: String)
    ensures
        r@ == spec_to_hex(data@),
{
    hex::encode(data)
}

/// Round trip: decoding the hexadecimal encoding of a byte string gives the
/// original bytes back, digit pair by digit pair.
pub proof fn lemma_hex_round_trip(b: Seq<u8>)
    ensures
        spec_to_hex_bytes(b).len() == 2 * b.len(),
        forall|i: int| 0 <= i < 2 * b.len() ==> is_hex_digit(#[trigger] spec_to_hex_bytes(b)[i]),
        spec_from_hex(spec_to_hex_bytes(b), b.len()) == b,
{
    assert forall|i: int| 0 <= i < 2 * b.len() implies is_hex_digit(
        #[trigger] spec_to_hex_bytes(b)[i],
    ) by {
        let v = b[i / 2];
        assert(v / 16 < 16 && v % 16 < 16);
    }
    assert forall|i: int| 0 <= i < b.len() implies spec_from_hex(spec_to_hex_bytes(b), b.len())[i]
        == b[i] by {
        let s = spec_to_hex_bytes(b);
        assert(s[2 * i] == hex_char_byte(b[i] / 16));
        assert(s[2 * i + 1] == hex_char_byte((b[i] % 16) as u8));
        assert(hex_digit_value(hex_char_byte(b[i] / 16)) == b[i] / 16);
        assert(hex_digit_value(hex_char_byte((b[i] % 16) as u8)) == b[i] % 16);
        assert(b[i] / 16 * 16 + b[i] % 16 == b[i]);
    }
    assert(spec_from_hex(spec_to_hex_bytes(b), b.len()) =~= b);
}

} // verus!
