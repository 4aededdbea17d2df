//! Keccak-256.

use crate::word::Word;
use tiny_keccak::{Hasher, Keccak};
use vstd::prelude::*;

verus! {

/// The Keccak-256 digest of `data`, as `tiny_keccak` computes it.
pub uninterp spec fn keccak256(data: Seq<u8>) -> Seq<u8>;

/// `tiny_keccak`'s `Keccak::v256`, fed `data` by one `update` and read by
/// `finalize` into 32 bytes: the digest is a function of the data, and has 32
/// bytes.
#[verifier::external_body]
pub(crate) fn keccak(data: &[u8]) -> (out: Vec<u8>)
    ensures
        out@ == keccak256(data@),
        out@.len() == 32,
{
    let mut out = [0u8; 32];
    let mut hasher = Keccak::v256();
    hasher.update(data);
    hasher.finalize(&mut out);
    out.to_vec()
}

/// The word that a 32-byte digest denotes, most significant byte first.
pub fn digest_word(digest: &[u8]) -> (w: Word)
    requires
        digest@.len() == 32,
    ensures
        w == Word::from_be_spec(digest@),
{
    Word::from_be_bytes(digest)
}

/// The Keccak-256 digest of `data` as a word.
pub fn keccak_word(data: &[u8]) -> (w: Word)
    ensures
        w == Word::from_be_spec(keccak256(data@)),
{
    let digest = keccak(data);
    digest_word(digest.as_slice())
}

} // verus!
