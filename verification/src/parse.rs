//! Words and addresses from text.

use crate::address::Address;
use crate::text::{
    parse_decimal, parse_decimal_spec, parse_hex, parse_hex_spec, parse_pairs, parse_pairs_spec,
};
use crate::word::Word;
use vstd::prelude::*;

verus! {

/// Whether `text` begins with `0x` or `0X`.
pub open spec fn has_hex_prefix(text: Seq<u8>) -> bool {
    text.len() >= 2 && text[0] == 0x30 && (text[1] == 0x78 || text[1] == 0x58)
}

/// The word that a text denotes: after `0x` or `0X`, pairs of hexadecimal
/// digits for at most 32 bytes, most significant first; else a decimal
/// number up to `u128::MAX`.
pub open spec fn parse_u256_spec(text: Seq<u8>) -> Option<Word> {
    if has_hex_prefix(text) {
        match parse_pairs_spec(text.subrange(2, text.len() as int)) {
            Some(bytes) => if bytes.len() <= 32 {
                Some(Word::from_be_spec(bytes))
            } else {
                None
            },
            None => None,
        }
    } else {
        match parse_decimal_spec(text) {
            Some(n) => Some(Word::from_nat(n as nat)),
            None => None,
        }
    }
}

/// The address that a text denotes: hexadecimal digits for exactly 20
/// bytes, with or without a leading `0x`.
pub open spec fn parse_h160_spec(text: Seq<u8>) -> Option<Address> {
    match parse_hex_spec(text) {
        Some(bytes) => if bytes.len() == 20 {
            Some(Address::from_be_spec(bytes))
        } else {
            None
        },
        None => None,
    }
}

/// Reads a word from text, hexadecimal after `0x` or decimal.
pub fn parse_u256(text: &[u8]) -> (r: Option<Word>)
    ensures
        r == parse_u256_spec(text@),
{
    let len = text.len();
    if len >= 2 && text[0] == 0x30 && (text[1] == 0x78 || text[1] == 0x58) {
        match parse_pairs(text, 2) {
            Some(bytes) => if bytes.len() <= 32 {
                Some(Word::from_be_bytes(bytes.as_slice()))
            } else {
                None
            },
            None => None,
        }
    } else {
        match parse_decimal(text) {
            Some(n) => Some(Word::from_u128(n)),
            None => None,
        }
    }
}

/// Reads an address from hexadecimal text.
pub fn parse_h160(text: &[u8]) -> (r: Option<Address>)
    ensures
        r == parse_h160_spec(text@),
{
    match parse_hex(text) {
        Some(bytes) => if bytes.len() == 20 {
            Some(Address::from_be_bytes(bytes.as_slice()))
        } else {
            None
        },
        None => None,
    }
}

} // verus!
