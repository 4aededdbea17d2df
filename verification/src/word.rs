//! 256-bit machine words.
//!
//! A [`Word`] holds its value as four 64-bit limbs, least significant first.
//! Arithmetic is done by `primitive_types::U256`; what is assumed of each of
//! its operations is stated on the private functions whose names begin with
//! `u256_`.

use crate::text::digits_spec;
use primitive_types::U256;
use vstd::prelude::*;

verus! {

/// A 256-bit unsigned integer.
#[derive(Clone, Copy, Debug, PartialEq, Eq, Structural)]
pub struct Word {
    pub w0: u64,
    pub w1: u64,
    pub w2: u64,
    pub w3: u64,
}

/// 2^64.
pub open spec fn limb_base() -> int {
    0x1_0000_0000_0000_0000
}

/// 2^128.
pub open spec fn pow2_128() -> int {
    0x1_0000_0000_0000_0000_0000_0000_0000_0000int
}

/// 2^192.
pub open spec fn pow2_192() -> int {
    0x1_0000_0000_0000_0000_0000_0000_0000_0000_0000_0000_0000_0000int
}

/// 2^256.
pub open spec fn word_modulus() -> nat {
    0x1_0000_0000_0000_0000_0000_0000_0000_0000_0000_0000_0000_0000_0000_0000_0000_0000nat
}

/// The number that a sequence of bytes denotes, most significant byte first.
pub open spec fn be_value(bytes: Seq<u8>) -> nat
    decreases bytes.len(),
{
    if bytes.len() == 0 {
        0
    } else {
        be_value(bytes.drop_last()) * 256 + bytes.last() as nat
    }
}

/// The `len` bytes that denote `n` modulo 256^`len`, most significant first.
pub open spec fn be_bytes(n: nat, len: nat) -> Seq<u8>
    decreases len,
{
    if len == 0 {
        Seq::empty()
    } else {
        be_bytes(n / 256, (len - 1) as nat).push((n % 256) as u8)
    }
}

/// 256^`k`.
pub open spec fn pow256(k: nat) -> nat
    decreases k,
{
    if k == 0 {
        1
    } else {
        256 * pow256((k - 1) as nat)
    }
}

impl Word {
    /// The number that the word denotes.
    pub open spec fn value(self) -> nat {
        (self.w0 as int + self.w1 as int * 0x1_0000_0000_0000_0000
            + self.w2 as int * pow2_128()
            + self.w3 as int * pow2_192()) as nat
    }

    /// The word that denotes `n` modulo 2^256.
    pub open spec fn from_nat(n: nat) -> Word {
        let m: int = n as int;
        Word {
            w0: (m % limb_base()) as u64,
            w1: ((m / limb_base()) % limb_base()) as u64,
            w2: ((m / pow2_128()) % limb_base()) as u64,
            w3: ((m / pow2_192()) % limb_base()) as u64,
        }
    }

    pub open spec fn zero_spec() -> Word {
        Word { w0: 0, w1: 0, w2: 0, w3: 0 }
    }

    pub open spec fn one_spec() -> Word {
        Word { w0: 1, w1: 0, w2: 0, w3: 0 }
    }

    /// 1 for `true`, 0 for `false`.
    pub open spec fn from_bool_spec(b: bool) -> Word {
        if b {
            Word::one_spec()
        } else {
            Word::zero_spec()
        }
    }

    pub open spec fn from_u64_spec(x: u64) -> Word {
        Word { w0: x, w1: 0, w2: 0, w3: 0 }
    }

    pub open spec fn from_u128_spec(x: u128) -> Word {
        Word {
            w0: (x % 0x1_0000_0000_0000_0000) as u64,
            w1: (x / 0x1_0000_0000_0000_0000) as u64,
            w2: 0,
            w3: 0,
        }
    }

    /// Sum modulo 2^256.
    pub open spec fn add_spec(self, other: Word) -> Word {
        Word::from_nat((self.value() + other.value()) % word_modulus())
    }

    /// Difference modulo 2^256.
    pub open spec fn sub_spec(self, other: Word) -> Word {
        Word::from_nat(
            ((self.value() + word_modulus() - other.value()) % (word_modulus() as int)) as nat,
        )
    }

    /// Product modulo 2^256.
    pub open spec fn mul_spec(self, other: Word) -> Word {
        Word::from_nat((self.value() * other.value()) % word_modulus())
    }

    /// Quotient rounded down; zero when the divisor is zero.
    pub open spec fn div_spec(self, other: Word) -> Word {
        if other.value() == 0 {
            Word::zero_spec()
        } else {
            Word::from_nat(self.value() / other.value())
        }
    }

    pub open spec fn and_spec(self, other: Word) -> Word {
        Word {
            w0: self.w0 & other.w0,
            w1: self.w1 & other.w1,
            w2: self.w2 & other.w2,
            w3: self.w3 & other.w3,
        }
    }

    pub open spec fn or_spec(self, other: Word) -> Word {
        Word {
            w0: self.w0 | other.w0,
            w1: self.w1 | other.w1,
            w2: self.w2 | other.w2,
            w3: self.w3 | other.w3,
        }
    }

    pub open spec fn xor_spec(self, other: Word) -> Word {
        Word {
            w0: self.w0 ^ other.w0,
            w1: self.w1 ^ other.w1,
            w2: self.w2 ^ other.w2,
            w3: self.w3 ^ other.w3,
        }
    }

    pub open spec fn not_spec(self) -> Word {
        Word { w0: !self.w0, w1: !self.w1, w2: !self.w2, w3: !self.w3 }
    }

    /// The word read from at most 32 bytes, most significant byte first.
    pub open spec fn from_be_spec(bytes: Seq<u8>) -> Word {
        Word::from_nat(be_value(bytes))
    }

    /// The 32 bytes of the word, most significant first.
    pub open spec fn to_be_spec(self) -> Seq<u8> {
        be_bytes(self.value(), 32)
    }

    /// Whether the value fits in a `usize`.
    pub open spec fn fits_usize(self) -> bool {
        self.value() <= usize::MAX as nat
    }

    /// The low 64 bits, cut to the width of `usize`.
    pub open spec fn low_usize_spec(self) -> usize {
        self.w0 as usize
    }

    /// The value, or `u128::MAX` when it is larger than that.
    pub open spec fn saturating_u128_spec(self) -> u128 {
        if self.value() <= u128::MAX as nat {
            self.value() as u128
        } else {
            u128::MAX
        }
    }

    /// The least significant byte.
    pub open spec fn low_byte_spec(self) -> u8 {
        (self.w0 % 256) as u8
    }

    pub fn zero() -> (r: Word)
        ensures
            r == Word::zero_spec(),
            r.value() == 0,
    {
        Word { w0: 0, w1: 0, w2: 0, w3: 0 }
    }

    pub fn one() -> (r: Word)
        ensures
            r == Word::one_spec(),
            r.value() == 1,
    {
        Word { w0: 1, w1: 0, w2: 0, w3: 0 }
    }

    pub fn from_bool(b: bool) -> (r: Word)
        ensures
            r == Word::from_bool_spec(b),
    {
        if b {
            Word::one()
        } else {
            Word::zero()
        }
    }

    pub fn from_u64(x: u64) -> (r: Word)
        ensures
            r == Word::from_u64_spec(x),
            r == Word::from_nat(x as nat),
            r.value() == x,
    {
        let r = Word { w0: x, w1: 0, w2: 0, w3: 0 };
        proof {
            lemma_from_nat_of_value(r);
        }
        r
    }

    pub fn from_usize(x: usize) -> (r: Word)
        ensures
            r == Word::from_u64_spec(x as u64),
            r == Word::from_nat(x as nat),
            r.value() == x,
    {
        let r = Word { w0: x as u64, w1: 0, w2: 0, w3: 0 };
        proof {
            lemma_from_nat_of_value(r);
        }
        r
    }

    pub fn from_u128(x: u128) -> (r: Word)
        ensures
            r == Word::from_u128_spec(x),
            r == Word::from_nat(x as nat),
            r.value() == x,
    {
        let r = Word {
            w0: (x % 0x1_0000_0000_0000_0000) as u64,
            w1: (x / 0x1_0000_0000_0000_0000) as u64,
            w2: 0,
            w3: 0,
        };
        proof {
            lemma_from_nat_of_value(r);
        }
        r
    }

    pub fn is_zero(&self) -> (b: bool)
        ensures
            b == (self.value() == 0),
            b == (*self == Word::zero_spec()),
    {
        self.w0 == 0 && self.w1 == 0 && self.w2 == 0 && self.w3 == 0
    }

    /// The value as a `usize`, where it fits.
    pub fn to_usize(&self) -> (r: Option<usize>)
        ensures
            r is Some <==> self.fits_usize(),
            r is Some ==> r->0 as nat == self.value(),
    {
        if self.w1 == 0 && self.w2 == 0 && self.w3 == 0 && self.w0 <= usize::MAX as u64 {
            Some(self.w0 as usize)
        } else {
            None
        }
    }

    /// The low 64 bits, cut to the width of `usize`.
    pub fn low_usize(&self) -> (r: usize)
        ensures
            r == self.low_usize_spec(),
            self.fits_usize() ==> r as nat == self.value(),
    {
        #[verifier::truncate]
        (self.w0 as usize)
    }

    /// The value, or `u128::MAX` when it is larger than that.
    pub fn saturating_u128(&self) -> (r: u128)
        ensures
            r == self.saturating_u128_spec(),
    {
        if self.w2 == 0 && self.w3 == 0 {
            (self.w0 as u128) + (self.w1 as u128) * 0x1_0000_0000_0000_0000
        } else {
            u128::MAX
        }
    }

    /// The least significant byte.
    pub fn low_byte(&self) -> (r: u8)
        ensures
            r == self.low_byte_spec(),
    {
        (self.w0 % 256) as u8
    }

    pub fn wrapping_add(self, other: Word) -> (r: Word)
        ensures
            r == self.add_spec(other),
    {
        let r = u256_overflowing_add(self, other);
        proof {
            lemma_from_nat_of_value(r);
        }
        r
    }

    pub fn wrapping_sub(self, other: Word) -> (r: Word)
        ensures
            r == self.sub_spec(other),
    {
        let r = u256_overflowing_sub(self, other);
        proof {
            lemma_from_nat_of_value(r);
        }
        r
    }

    pub fn wrapping_mul(self, other: Word) -> (r: Word)
        ensures
            r == self.mul_spec(other),
    {
        let r = u256_overflowing_mul(self, other);
        proof {
            lemma_from_nat_of_value(r);
        }
        r
    }

    /// Division that gives zero for a zero divisor.
    pub fn div_or_zero(self, other: Word) -> (r: Word)
        ensures
            r == self.div_spec(other),
    {
        if other.is_zero() {
            Word::zero()
        } else {
            let r = u256_div(self, other);
            proof {
                lemma_from_nat_of_value(r);
            }
            r
        }
    }

    pub fn lt(&self, other: &Word) -> (b: bool)
        ensures
            b == (self.value() < other.value()),
    {
        u256_lt(*self, *other)
    }

    pub fn gt(&self, other: &Word) -> (b: bool)
        ensures
            b == (self.value() > other.value()),
    {
        u256_gt(*self, *other)
    }

    pub fn bitand(self, other: Word) -> (r: Word)
        ensures
            r == self.and_spec(other),
    {
        u256_bitand(self, other)
    }

    pub fn bitor(self, other: Word) -> (r: Word)
        ensures
            r == self.or_spec(other),
    {
        u256_bitor(self, other)
    }

    pub fn bitxor(self, other: Word) -> (r: Word)
        ensures
            r == self.xor_spec(other),
    {
        u256_bitxor(self, other)
    }

    pub fn not(self) -> (r: Word)
        ensures
            r == self.not_spec(),
    {
        u256_not(self)
    }

    /// Reads a word from at most 32 bytes, most significant byte first.
    pub fn from_be_bytes(bytes: &[u8]) -> (r: Word)
        requires
            bytes@.len() <= 32,
        ensures
            r == Word::from_be_spec(bytes@),
            r.value() == be_value(bytes@),
    {
        let r = u256_from_big_endian(bytes);
        proof {
            lemma_from_nat_of_value(r);
        }
        r
    }

    /// The value in hexadecimal digits, without leading zeros.
    pub fn to_hex(&self) -> (s: String)
        ensures
            s@ == digits_spec(self.value(), 16),
    {
        u256_lower_hex(*self)
    }

    /// The 32 bytes of the word, most significant first.
    pub fn to_be_bytes(&self) -> (out: Vec<u8>)
        ensures
            out@ == self.to_be_spec(),
            out@.len() == 32,
    {
        let out = u256_to_big_endian(*self);
        proof {
            lemma_be_bytes_of_be_value(out@);
        }
        out
    }
}

/// A word's value is below 2^256.
pub proof fn lemma_value_bound(w: Word)
    ensures
        w.value() < word_modulus(),
{
}

/// A word is the word of its value.
pub proof fn lemma_from_nat_of_value(w: Word)
    ensures
        Word::from_nat(w.value()) == w,
{
    let b: int = 0x1_0000_0000_0000_0000;
    let n: int = w.value() as int;
    let hi1: int = w.w1 as int + w.w2 as int * b + w.w3 as int * pow2_128();
    let hi2: int = w.w2 as int + w.w3 as int * b;
    let hi3: int = w.w3 as int;
    assert(n == w.w0 as int + hi1 * b);
    assert(n / b == hi1 && n % b == w.w0 as int) by {
        lemma_div_mod_unique(n, b, hi1, w.w0 as int);
    }
    assert(hi1 == w.w1 as int + hi2 * b);
    assert(hi1 / b == hi2 && hi1 % b == w.w1 as int) by {
        lemma_div_mod_unique(hi1, b, hi2, w.w1 as int);
    }
    assert(hi2 / b == hi3 && hi2 % b == w.w2 as int) by {
        lemma_div_mod_unique(hi2, b, hi3, w.w2 as int);
    }
    assert(n / pow2_128() == hi2) by {
        lemma_div_mod_unique(
            n,
            pow2_128(),
            hi2,
            w.w0 as int + w.w1 as int * b,
        );
    }
    assert(n / pow2_192() == hi3) by {
        lemma_div_mod_unique(
            n,
            pow2_192(),
            hi3,
            w.w0 as int + w.w1 as int * b + w.w2 as int
                * pow2_128(),
        );
    }
    assert(hi3 % b == hi3);
}

/// Quotient and remainder are determined by `n == q * d + r` with
/// `0 <= r < d`.
pub proof fn lemma_div_mod_unique(n: int, d: int, q: int, r: int)
    requires
        d > 0,
        0 <= r < d,
        n == r + q * d,
    ensures
        n / d == q,
        n % d == r,
{
    vstd::arithmetic::div_mod::lemma_fundamental_div_mod_converse(n, d, q, r);
}

/// The bytes of a number have the length asked for.
pub proof fn lemma_be_bytes_len(n: nat, len: nat)
    ensures
        be_bytes(n, len).len() == len,
    decreases len,
{
    if len > 0 {
        lemma_be_bytes_len(n / 256, (len - 1) as nat);
    }
}

/// Bytes are the bytes of the number that they denote.
pub proof fn lemma_be_bytes_of_be_value(s: Seq<u8>)
    ensures
        be_bytes(be_value(s), s.len()) == s,
    decreases s.len(),
{
    if s.len() > 0 {
        let init = s.drop_last();
        lemma_be_bytes_of_be_value(init);
        let n = be_value(s);
        assert(n == be_value(init) * 256 + s.last() as nat);
        assert(n / 256 == be_value(init) && n % 256 == s.last() as nat) by {
            lemma_div_mod_unique(n as int, 256, be_value(init) as int, s.last() as int);
        }
        assert(be_bytes(n, s.len()) =~= s);
    } else {
        assert(be_bytes(be_value(s), 0) =~= s);
    }
}

/// The bytes of a number denote that number modulo 256^`len`.
pub proof fn lemma_be_value_of_be_bytes(n: nat, len: nat)
    ensures
        be_value(be_bytes(n, len)) == n % pow256(len),
        pow256(len) > 0,
    decreases len,
{
    if len > 0 {
        let k = (len - 1) as nat;
        lemma_be_value_of_be_bytes(n / 256, k);
        let s = be_bytes(n, len);
        assert(s.drop_last() =~= be_bytes(n / 256, k));
        assert(s.last() == (n % 256) as u8);
        assert(pow256(len) == 256 * pow256(k));
        vstd::arithmetic::div_mod::lemma_breakdown(n as int, 256, pow256(k) as int);
    }
}

/// 256^32 is 2^256, and 256^20 is 2^160.
pub proof fn lemma_pow256_values()
    ensures
        pow256(32) == word_modulus(),
        pow256(20) == 0x1_0000_0000_0000_0000_0000_0000_0000_0000_0000_0000nat,
{
    reveal_with_fuel(pow256, 33);
}

/// The last `k` bytes of a number's bytes are its `k` bytes.
pub proof fn lemma_be_bytes_suffix(n: nat, len: nat, k: nat)
    requires
        k <= len,
    ensures
        be_bytes(n, len).len() == len,
        be_bytes(n, len).subrange(len - k, len as int) == be_bytes(n, k),
    decreases k,
{
    lemma_be_bytes_len(n, len);
    if k > 0 {
        lemma_be_bytes_suffix(n / 256, (len - 1) as nat, (k - 1) as nat);
        lemma_be_bytes_len(n / 256, (len - 1) as nat);
        assert(be_bytes(n, len).subrange(len - k, len as int) =~= be_bytes(n, k));
    } else {
        assert(be_bytes(n, len).subrange(len - k, len as int) =~= be_bytes(n, k));
    }
}

/// Reading the bytes of a word gives the word back.
pub proof fn lemma_be_round_trip(w: Word)
    ensures
        w.to_be_spec().len() == 32,
        Word::from_be_spec(w.to_be_spec()) == w,
{
    lemma_be_bytes_len(w.value(), 32);
    lemma_be_value_of_be_bytes(w.value(), 32);
    lemma_pow256_values();
    lemma_value_bound(w);
    assert(w.value() % word_modulus() == w.value()) by {
        vstd::arithmetic::div_mod::lemma_small_mod(w.value(), word_modulus());
    }
    lemma_from_nat_of_value(w);
}

/// `U256::overflowing_add`: the first component of its result is the sum
/// modulo 2^256.
#[verifier::external_body]
fn u256_overflowing_add(a: Word, b: Word) -> (r: Word)
    ensures
        r.value() == (a.value() + b.value()) % word_modulus(),
{
    let x = U256([a.w0, a.w1, a.w2, a.w3]);
    let (U256(l), _) = x.overflowing_add(U256([b.w0, b.w1, b.w2, b.w3]));
    Word { w0: l[0], w1: l[1], w2: l[2], w3: l[3] }
}

/// `U256::overflowing_sub`: the first component of its result is the
/// difference modulo 2^256.
#[verifier::external_body]
fn u256_overflowing_sub(a: Word, b: Word) -> (r: Word)
    ensures
        r.value() == (a.value() + word_modulus() - b.value()) % (word_modulus() as int),
{
    let x = U256([a.w0, a.w1, a.w2, a.w3]);
    let (U256(l), _) = x.overflowing_sub(U256([b.w0, b.w1, b.w2, b.w3]));
    Word { w0: l[0], w1: l[1], w2: l[2], w3: l[3] }
}

/// `U256::overflowing_mul`: the first component of its result is the
/// product modulo 2^256.
#[verifier::external_body]
fn u256_overflowing_mul(a: Word, b: Word) -> (r: Word)
    ensures
        r.value() == (a.value() * b.value()) % word_modulus(),
{
    let x = U256([a.w0, a.w1, a.w2, a.w3]);
    let (U256(l), _) = x.overflowing_mul(U256([b.w0, b.w1, b.w2, b.w3]));
    Word { w0: l[0], w1: l[1], w2: l[2], w3: l[3] }
}

/// `U256`'s `/`: the quotient rounded down. It panics on a zero divisor,
/// which is left out.
#[verifier::external_body]
fn u256_div(a: Word, b: Word) -> (r: Word)
    requires
        b.value() != 0,
    ensures
        r.value() == a.value() / b.value(),
{
    let U256(l) = U256([a.w0, a.w1, a.w2, a.w3]) / U256([b.w0, b.w1, b.w2, b.w3]);
    Word { w0: l[0], w1: l[1], w2: l[2], w3: l[3] }
}

/// `U256`'s `<`: the order of the values.
#[verifier::external_body]
fn u256_lt(a: Word, b: Word) -> (r: bool)
    ensures
        r == (a.value() < b.value()),
{
    U256([a.w0, a.w1, a.w2, a.w3]) < U256([b.w0, b.w1, b.w2, b.w3])
}

/// `U256`'s `>`: the order of the values.
#[verifier::external_body]
fn u256_gt(a: Word, b: Word) -> (r: bool)
    ensures
        r == (a.value() > b.value()),
{
    U256([a.w0, a.w1, a.w2, a.w3]) > U256([b.w0, b.w1, b.w2, b.w3])
}

/// `U256`'s `&`: limb by limb.
#[verifier::external_body]
fn u256_bitand(a: Word, b: Word) -> (r: Word)
    ensures
        r == a.and_spec(b),
{
    let U256(l) = U256([a.w0, a.w1, a.w2, a.w3]) & U256([b.w0, b.w1, b.w2, b.w3]);
    Word { w0: l[0], w1: l[1], w2: l[2], w3: l[3] }
}

/// `U256`'s `|`: limb by limb.
#[verifier::external_body]
fn u256_bitor(a: Word, b: Word) -> (r: Word)
    ensures
        r == a.or_spec(b),
{
    let U256(l) = U256([a.w0, a.w1, a.w2, a.w3]) | U256([b.w0, b.w1, b.w2, b.w3]);
    Word { w0: l[0], w1: l[1], w2: l[2], w3: l[3] }
}

/// `U256`'s `^`: limb by limb.
#[verifier::external_body]
fn u256_bitxor(a: Word, b: Word) -> (r: Word)
    ensures
        r == a.xor_spec(b),
{
    let U256(l) = U256([a.w0, a.w1, a.w2, a.w3]) ^ U256([b.w0, b.w1, b.w2, b.w3]);
    Word { w0: l[0], w1: l[1], w2: l[2], w3: l[3] }
}

/// `U256`'s `!`: limb by limb.
#[verifier::external_body]
fn u256_not(a: Word) -> (r: Word)
    ensures
        r == a.not_spec(),
{
    let U256(l) = !U256([a.w0, a.w1, a.w2, a.w3]);
    Word { w0: l[0], w1: l[1], w2: l[2], w3: l[3] }
}

/// `U256::from_big_endian`: the number that the bytes denote, most
/// significant first. It panics on more than 32 bytes, which are left out.
#[verifier::external_body]
fn u256_from_big_endian(bytes: &[u8]) -> (r: Word)
    requires
        bytes@.len() <= 32,
    ensures
        r.value() == be_value(bytes@),
{
    let U256(l) = U256::from_big_endian(bytes);
    Word { w0: l[0], w1: l[1], w2: l[2], w3: l[3] }
}

/// `U256::to_big_endian` on a buffer of 32 bytes: the 32 bytes that denote
/// the value, most significant first.
#[verifier::external_body]
fn u256_to_big_endian(w: Word) -> (out: Vec<u8>)
    ensures
        out@.len() == 32,
        be_value(out@) == w.value(),
{
    let mut buf = [0u8; 32];
    U256([w.w0, w.w1, w.w2, w.w3]).to_big_endian(&mut buf);
    buf.to_vec()
}

/// `U256`'s `LowerHex`: the digits of the value in base 16, `a` to `f` in
/// lower case, without leading zeros; one `0` for zero.
#[verifier::external_body]
fn u256_lower_hex(w: Word) -> (s: String)
    ensures
        s@ == digits_spec(w.value(), 16),
{
    format!("{:x}", U256([w.w0, w.w1, w.w2, w.w3]))
}

} // verus!
