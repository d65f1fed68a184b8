//! The pattern to search for, given as hexadecimal digits or as text.

use vstd::prelude::*;

verus! {

/// Why a string of hexadecimal digits could not be decoded.
#[derive(Clone, Copy, Debug, PartialEq, Eq, Structural)]
pub enum HexError {
    /// The byte at `index`, shown as the character `c`, is no hexadecimal
    /// digit.
    InvalidHexCharacter { c: char, index: usize },
    /// The number of digits is odd.
    OddLength,
    /// The digits do not fill a container of fixed length.
    InvalidStringLength,
}

/// The value of a hexadecimal digit, in either case.
pub open spec fn hex_value(c: u8) -> Option<int> {
    if 0x30 <= c <= 0x39 {
        Some(c - 0x30)
    } else if 0x61 <= c <= 0x66 {
        Some(c - 0x61 + 10)
    } else if 0x41 <= c <= 0x46 {
        Some(c - 0x41 + 10)
    } else {
        None
    }
}

/// The lowest index from `i` on at which `data` holds no hexadecimal digit,
/// or the length of `data` if there is none.
pub open spec fn first_invalid(data: Seq<u8>, i: int) -> int
    decreases data.len() - i,
{
    if i >= data.len() {
        data.len() as int
    } else if hex_value(data[i]) is None {
        i
    } else {
        first_invalid(data, i + 1)
    }
}

/// The bytes that pairs of hexadecimal digits stand for, the high digit
/// first.
pub open spec fn hex_bytes(data: Seq<u8>) -> Seq<u8> {
    Seq::new(
        data.len() / 2,
        |i: int| (hex_value(data[2 * i])->0 * 16 + hex_value(data[2 * i + 1])->0) as u8,
    )
}

/// What decoding `data` gives: an odd length is refused first, then the
/// first byte that is no digit; digits alone give their bytes.
pub open spec fn hex_decoding(data: Seq<u8>) -> Result<Seq<u8>, HexError> {
    if data.len() % 2 != 0 {
        Err(HexError::OddLength)
    } else if first_invalid(data, 0) < data.len() {
        Err(
            HexError::InvalidHexCharacter {
                c: data[first_invalid(data, 0)] as char,
                index: first_invalid(data, 0) as usize,
            },
        )
    } else {
        Ok(hex_bytes(data))
    }
}

/// Calls `hex::decode`. Trusted: it refuses an odd number of bytes, then
/// reads the bytes in order, two for each byte of the result, and stops at
/// the first that is no digit `0-9`, `a-f` or `A-F`, naming it and its
/// index.
#[verifier::external_body]
pub(crate) fn decode_hex(data: &[u8]) -> (decoded: Result<Vec<u8>, HexError>)
    ensures
        match decoded {
            Ok(bytes) => hex_decoding(data@) == Ok::<Seq<u8>, HexError>(bytes@),
            Err(e) => hex_decoding(data@) == Err::<Seq<u8>, HexError>(e),
        },
{
    match hex::decode(data) {
        Ok(bytes) => Ok(bytes),
        Err(hex::FromHexError::InvalidHexCharacter { c, index }) => Err(
            HexError::InvalidHexCharacter { c, index },
        ),
        Err(hex::FromHexError::OddLength) => Err(HexError::OddLength),
        Err(hex::FromHexError::InvalidStringLength) => Err(HexError::InvalidStringLength),
    }
}

/// Why there is no pattern to search for.
#[derive(Clone, Copy, Debug, PartialEq, Eq, Structural)]
pub enum PatternError {
    /// The hexadecimal pattern could not be decoded.
    Hex(HexError),
    /// Neither a hexadecimal nor a text pattern was given.
    Missing,
    /// The pattern holds no byte.
    Empty,
}

/// The pattern that the two optional arguments give: the decoded hexadecimal
/// digits if there are any, else the bytes of the text.
pub open spec fn chosen_pattern(hex: Option<Seq<char>>, text: Option<Seq<char>>) -> Result<
    Seq<u8>,
    PatternError,
> {
    match hex {
        Some(digits) => match hex_decoding(vstd::utf8::encode_utf8(digits)) {
            Ok(bytes) => Ok(bytes),
            Err(e) => Err(PatternError::Hex(e)),
        },
        None => match text {
            Some(t) => Ok(vstd::utf8::encode_utf8(t)),
            None => Err(PatternError::Missing),
        },
    }
}

/// The views of an optional string.
pub open spec fn text_of(s: Option<String>) -> Option<Seq<char>> {
    match s {
        Some(t) => Some(t@),
        None => None,
    }
}

/// Chooses the pattern: `hex_pattern` decoded, if it is given, else the
/// UTF-8 bytes of `text_pattern`.
pub fn pattern_bytes(hex_pattern: &Option<String>, text_pattern: &Option<String>) -> (pattern: Result<
    Vec<u8>,
    PatternError,
>)
    ensures
        match pattern {
            Ok(bytes) => chosen_pattern(text_of(*hex_pattern), text_of(*text_pattern)) == Ok::<
                Seq<u8>,
                PatternError,
            >(bytes@),
            Err(e) => chosen_pattern(text_of(*hex_pattern), text_of(*text_pattern)) == Err::<
                Seq<u8>,
                PatternError,
            >(e),
        },
{
    match hex_pattern {
        Some(digits) => match decode_hex(digits.as_str().as_bytes()) {
            Ok(bytes) => Ok(bytes),
            Err(e) => Err(PatternError::Hex(e)),
        },
        None => match text_pattern {
            Some(text) => Ok(vstd::slice::slice_to_vec(text.as_str().as_bytes())),
            None => Err(PatternError::Missing),
        },
    }
}

} // verus!
