//! Hashes in command lines.
use vstd::prelude::*;
use vstd::slice::slice_subrange;

use crate::outside::{byte32_from_slice, hex_decode};

verus! {

/// Why hexadecimal digits cannot be decoded.
#[derive(Copy, Clone, Debug, PartialEq, Eq)]
pub enum HexError {
    /// A byte is no digit.
    InvalidHexCharacter {
        /// The byte, as a character.
        c: char,
        /// Where it is.
        index: usize,
    },
    /// There is an odd number of digits.
    OddLength,
    /// The number of digits does not match what they are decoded into.
    InvalidStringLength,
}

/// Why a string is no hash.
#[derive(Clone, Debug, PartialEq, Eq)]
pub enum Byte32Error {
    /// It does not hold hexadecimal digits.
    Hex(HexError),
    /// It does not hold the right number of bytes; the message says so.
    Creation(String),
}

/// The value of a hexadecimal digit.
pub open spec fn hex_digit(digit: u8) -> Option<u8> {
    if 0x30 <= digit <= 0x39 {
        Some((digit - 0x30) as u8)
    } else if 0x41 <= digit <= 0x46 {
        Some((digit - 0x41 + 10) as u8)
    } else if 0x61 <= digit <= 0x66 {
        Some((digit - 0x61 + 10) as u8)
    } else {
        None
    }
}

/// Whether all bytes are hexadecimal digits.
pub open spec fn all_hex_digits(digits: Seq<u8>) -> bool {
    forall|i: int| 0 <= i < digits.len() ==> hex_digit(#[trigger] digits[i]) is Some
}

/// The bytes whose hexadecimal digits these are, two of them each.
pub open spec fn bytes_of_digits(digits: Seq<u8>) -> Seq<u8> {
    Seq::new(
        digits.len() / 2,
        |i: int| (16 * hex_digit(digits[2 * i])->0 + hex_digit(digits[2 * i + 1])->0) as u8,
    )
}

/// The bytes of a string after the prefix `0x`, which may be absent.
pub open spec fn without_prefix(bytes: Seq<u8>) -> Seq<u8> {
    if bytes.len() >= 2 && bytes[0] == 0x30 && bytes[1] == 0x78 {
        bytes.skip(2)
    } else {
        bytes
    }
}

/// Reads a hash of thirty-two bytes, written in hexadecimal digits.
pub fn parse_byte32(s: &str) -> (result: Result<Vec<u8>, Byte32Error>)
    ensures
        ({
            let digits = without_prefix(vstd::utf8::encode_utf8(s@));
            match result {
                Ok(bytes) => {
                    &&& digits.len() == 64
                    &&& all_hex_digits(digits)
                    &&& bytes@ == bytes_of_digits(digits)
                },
                Err(Byte32Error::Hex(HexError::OddLength)) => digits.len() % 2 != 0,
                Err(Byte32Error::Hex(HexError::InvalidHexCharacter { c, index })) => {
                    &&& digits.len() % 2 == 0
                    &&& index < digits.len()
                    &&& all_hex_digits(digits.take(index as int))
                    &&& hex_digit(digits[index as int]) is None
                    &&& c == digits[index as int] as char
                },
                Err(Byte32Error::Hex(HexError::InvalidStringLength)) => false,
                Err(Byte32Error::Creation(message)) => {
                    &&& digits.len() % 2 == 0
                    &&& all_hex_digits(digits)
                    &&& digits.len() != 64
                    &&& message@ == "Byte32Reader total size doesn't match, expect 32, actual "@
                        + crate::text::decimal(digits.len() / 2)
                },
            }
        }),
{
    let bytes: &[u8] = s.as_bytes();
    let offset: usize = if bytes.len() >= 2 && bytes[0] == 0x30 && bytes[1] == 0x78 {
        2
    } else {
        0
    };
    let digits = slice_subrange(bytes, offset, bytes.len());
    assert(digits@ =~= without_prefix(vstd::utf8::encode_utf8(s@)));
    match hex_decode(digits) {
        Ok(decoded) => match byte32_from_slice(decoded.as_slice()) {
            Ok(hash) => Ok(hash),
            Err(message) => Err(Byte32Error::Creation(message)),
        },
        Err(error) => Err(Byte32Error::Hex(error)),
    }
}

} // verus!
