//! RLP encoding of short items, and the addresses of created contracts.

use crate::address::Address;
use crate::bytes::append_bytes;
use crate::hash::{keccak, keccak256};
use crate::word::Word;
use vstd::prelude::*;

verus! {

/// RLP of a string of at most 55 bytes: a single byte below 0x80 stands for
/// itself, any other string follows a byte that holds 0x80 plus its length.
pub open spec fn rlp_bytes_spec(b: Seq<u8>) -> Seq<u8> {
    if b.len() == 1 && b[0] < 0x80 {
        b
    } else {
        seq![(0x80 + b.len()) as u8] + b
    }
}

/// The bytes of `n`, most significant first, without leading zeros: none
/// for zero.
pub open spec fn minimal_be(n: nat) -> Seq<u8>
    decreases n,
{
    if n == 0 {
        Seq::empty()
    } else {
        minimal_be(n / 256).push((n % 256) as u8)
    }
}

/// RLP of an integer: the RLP of its bytes without leading zeros.
pub open spec fn rlp_u64_spec(n: u64) -> Seq<u8> {
    rlp_bytes_spec(minimal_be(n as nat))
}

/// What is hashed for the address of a contract made by CREATE: the RLP
/// list of the sender's 20 bytes and its nonce.
pub open spec fn create_preimage_spec(from: Address, nonce: u64) -> Seq<u8> {
    let items = rlp_bytes_spec(from.to_be_spec()) + rlp_u64_spec(nonce);
    seq![(0xC0 + items.len()) as u8] + items
}

/// What is hashed for the address of a contract made by CREATE2: the byte
/// 0xff, the sender's 20 bytes, the 32 bytes of the salt and the 32 bytes of
/// the digest of the init code.
pub open spec fn create2_preimage_spec(from: Address, salt: Word, init_digest: Seq<u8>) -> Seq<u8> {
    seq![0xffu8] + from.to_be_spec() + salt.to_be_spec() + init_digest
}

/// Address of a contract made by CREATE.
pub open spec fn create_address_spec(from: Address, nonce: u64) -> Address {
    Address::from_digest_spec(keccak256(create_preimage_spec(from, nonce)))
}

/// Address of a contract made by CREATE2.
pub open spec fn create2_address_spec(from: Address, salt: Word, init: Seq<u8>) -> Address {
    Address::from_digest_spec(keccak256(create2_preimage_spec(from, salt, keccak256(init))))
}

/// RLP of a string of at most 55 bytes.
pub fn rlp_bytes(b: &[u8]) -> (out: Vec<u8>)
    requires
        b@.len() <= 55,
    ensures
        out@ == rlp_bytes_spec(b@),
{
    let mut out: Vec<u8> = Vec::new();
    if b.len() == 1 && b[0] < 0x80 {
        out.push(b[0]);
        assert(out@ =~= b@);
        return out;
    }
    out.push(0x80 + (b.len() as u8));
    append_bytes(&mut out, b);
    assert(out@ =~= seq![(0x80 + b@.len()) as u8] + b@);
    out
}

/// RLP of an integer.
pub fn rlp_u64(n: u64) -> (out: Vec<u8>)
    ensures
        out@ == rlp_u64_spec(n),
        out@.len() <= 9,
{
    // The bytes of `n` from the least significant up.
    let mut rev: Vec<u8> = Vec::new();
    let mut x: u64 = n;
    assert(crate::word::pow256(0) == 1);
    assert(rev@.reverse() =~= Seq::<u8>::empty());
    while x > 0
        invariant
            rev@.len() <= 8,
            x as nat * crate::word::pow256(rev@.len()) <= n,
            minimal_be(n as nat) == minimal_be(x as nat) + rev@.reverse(),
        decreases x,
    {
        let ghost old_rev = rev@;
        let ghost old_x = x;
        proof {
            crate::word::lemma_pow256_values();
            reveal_with_fuel(crate::word::pow256, 9);
            if rev@.len() == 8 {
                assert(crate::word::pow256(8) == 0x1_0000_0000_0000_0000);
                assert(false);
            }
        }
        rev.push((x % 256) as u8);
        x = x / 256;
        proof {
            assert(minimal_be(old_x as nat) == minimal_be(x as nat).push((old_x % 256) as u8));
            assert(rev@.reverse() =~= seq![(old_x % 256) as u8] + old_rev.reverse());
            assert(minimal_be(x as nat).push((old_x % 256) as u8) + old_rev.reverse()
                =~= minimal_be(x as nat) + rev@.reverse());
            assert(crate::word::pow256(rev@.len()) == 256 * crate::word::pow256(old_rev.len()));
            assert(x as nat * (256 * crate::word::pow256(old_rev.len())) <= old_x as nat
                * crate::word::pow256(old_rev.len())) by (nonlinear_arith)
                requires
                    x as nat * 256 <= old_x as nat,
            ;
        }
    }
    let mut buf: Vec<u8> = Vec::new();
    let mut i: usize = rev.len();
    while i > 0
        invariant
            i <= rev@.len() <= 8,
            buf@ == rev@.reverse().subrange(0, rev@.len() - i),
        decreases i,
    {
        i = i - 1;
        buf.push(rev[i]);
        assert(buf@ =~= rev@.reverse().subrange(0, rev@.len() - i));
    }
    proof {
        assert(buf@ =~= rev@.reverse());
        assert(minimal_be(0) =~= Seq::<u8>::empty());
        assert(minimal_be(n as nat) =~= buf@);
    }
    rlp_bytes(buf.as_slice())
}

/// What is hashed for the address of a contract made by CREATE.
pub fn create_preimage(from: &Address, nonce: u64) -> (out: Vec<u8>)
    ensures
        out@ == create_preimage_spec(*from, nonce),
{
    let from_bytes = from.to_be_bytes();
    let enc_from = rlp_bytes(from_bytes.as_slice());
    let enc_nonce = rlp_u64(nonce);
    let list_len: usize = enc_from.len() + enc_nonce.len();
    let mut out: Vec<u8> = Vec::new();
    out.push(0xC0 + (list_len as u8));
    append_bytes(&mut out, enc_from.as_slice());
    append_bytes(&mut out, enc_nonce.as_slice());
    proof {
        let items = rlp_bytes_spec(from.to_be_spec()) + rlp_u64_spec(nonce);
        assert(out@ =~= seq![(0xC0 + items.len()) as u8] + items);
    }
    out
}

/// What is hashed for the address of a contract made by CREATE2, given the
/// digest of its init code.
pub fn create2_preimage(from: &Address, salt: &Word, init_digest: &[u8]) -> (out: Vec<u8>)
    ensures
        out@ == create2_preimage_spec(*from, *salt, init_digest@),
{
    let from_bytes = from.to_be_bytes();
    let salt_bytes = salt.to_be_bytes();
    let mut out: Vec<u8> = Vec::new();
    out.push(0xff);
    append_bytes(&mut out, from_bytes.as_slice());
    append_bytes(&mut out, salt_bytes.as_slice());
    append_bytes(&mut out, init_digest);
    assert(out@ =~= seq![0xffu8] + from.to_be_spec() + salt.to_be_spec() + init_digest@);
    out
}

/// Address of a contract made by CREATE from `from` with nonce `nonce`.
pub fn create_address(from: &Address, nonce: u64) -> (r: Address)
    ensures
        r == create_address_spec(*from, nonce),
{
    let preimage = create_preimage(from, nonce);
    let digest = keccak(preimage.as_slice());
    Address::from_digest(digest.as_slice())
}

/// Address of a contract made by CREATE2 from `from` with `salt` and the
/// init code `init`.
pub fn create2_address(from: &Address, salt: &Word, init: &[u8]) -> (r: Address)
    ensures
        r == create2_address_spec(*from, *salt, init@),
{
    let init_digest = keccak(init);
    let preimage = create2_preimage(from, salt, init_digest.as_slice());
    let digest = keccak(preimage.as_slice());
    Address::from_digest(digest.as_slice())
}

} // verus!
