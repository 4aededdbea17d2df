//! 160-bit account addresses.

use crate::bytes::copy_range;
use crate::word::{be_bytes, lemma_be_bytes_suffix, Word};
use vstd::prelude::*;

verus! {

/// A 160-bit account address, held as three limbs, least significant
/// first.
#[derive(Clone, Copy, Debug, PartialEq, Eq, Structural)]
pub struct Address {
    pub a0: u64,
    pub a1: u64,
    pub a2: u32,
}

impl Address {
    /// The number that the address denotes.
    pub open spec fn value(self) -> nat {
        self.to_word_spec().value()
    }

    pub open spec fn zero_spec() -> Address {
        Address { a0: 0, a1: 0, a2: 0 }
    }

    /// The address whose last eight bytes denote `x`, the others being zero.
    pub open spec fn from_low_u64_spec(x: u64) -> Address {
        Address { a0: x, a1: 0, a2: 0 }
    }

    /// The word with the same value: its high 96 bits are zero.
    pub open spec fn to_word_spec(self) -> Word {
        Word { w0: self.a0, w1: self.a1, w2: self.a2 as u64, w3: 0 }
    }

    /// The low 160 bits of a word.
    pub open spec fn from_word_spec(w: Word) -> Address {
        Address { a0: w.w0, a1: w.w1, a2: (w.w2 % 0x1_0000_0000) as u32 }
    }

    /// The 20 bytes of the address, most significant first.
    pub open spec fn to_be_spec(self) -> Seq<u8> {
        be_bytes(self.value(), 20)
    }

    /// The address read from bytes, most significant first: the low 160
    /// bits of the number they denote.
    pub open spec fn from_be_spec(bytes: Seq<u8>) -> Address {
        Address::from_word_spec(Word::from_be_spec(bytes))
    }

    /// The address that the last 20 bytes of a 32-byte digest denote.
    pub open spec fn from_digest_spec(digest: Seq<u8>) -> Address {
        Address::from_be_spec(digest.subrange(12, 32))
    }

    pub fn zero() -> (r: Address)
        ensures
            r == Address::zero_spec(),
    {
        Address { a0: 0, a1: 0, a2: 0 }
    }

    pub fn from_low_u64_be(x: u64) -> (r: Address)
        ensures
            r == Address::from_low_u64_spec(x),
    {
        Address { a0: x, a1: 0, a2: 0 }
    }

    pub fn to_word(&self) -> (w: Word)
        ensures
            w == self.to_word_spec(),
    {
        Word { w0: self.a0, w1: self.a1, w2: self.a2 as u64, w3: 0 }
    }

    /// Keeps the low 160 bits of a word.
    pub fn from_word(w: &Word) -> (r: Address)
        ensures
            r == Address::from_word_spec(*w),
    {
        Address { a0: w.w0, a1: w.w1, a2: (w.w2 % 0x1_0000_0000) as u32 }
    }

    /// The 20 bytes of the address, most significant first.
    pub fn to_be_bytes(&self) -> (out: Vec<u8>)
        ensures
            out@ == self.to_be_spec(),
            out@.len() == 20,
    {
        let full = self.to_word().to_be_bytes();
        proof {
            lemma_be_bytes_suffix(self.value(), 32, 20);
        }
        copy_range(full.as_slice(), 12, 32)
    }

    /// Reads an address from bytes, most significant first. With 20 bytes
    /// or fewer nothing is cut off.
    pub fn from_be_bytes(bytes: &[u8]) -> (r: Address)
        requires
            bytes@.len() <= 32,
        ensures
            r == Address::from_be_spec(bytes@),
    {
        let w = Word::from_be_bytes(bytes);
        Address::from_word(&w)
    }

    /// The address that the last 20 bytes of a 32-byte digest denote.
    pub fn from_digest(digest: &[u8]) -> (r: Address)
        requires
            digest@.len() == 32,
        ensures
            r == Address::from_digest_spec(digest@),
    {
        let tail = copy_range(digest, 12, 32);
        Address::from_be_bytes(tail.as_slice())
    }
}

} // verus!
