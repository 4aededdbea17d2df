//! The gas schedule: memory expansion and call forwarding.

use vstd::prelude::*;

verus! {

/// Number of 32-byte words needed to hold `size` bytes.
pub open spec fn words_spec(size: int) -> int {
    (size + 31) / 32
}

/// Total cost of a memory of `words` words: `3w + w^2 / 512`.
pub open spec fn mem_cost_spec(words: int) -> int {
    3 * words + (words * words) / 512
}

/// Gas charged for growing a memory of `old_len` bytes so that it covers
/// `end` bytes: the difference of the total costs, nothing if it already
/// does.
pub open spec fn expansion_cost_spec(old_len: int, end: int) -> int {
    if words_spec(end) > words_spec(old_len) {
        mem_cost_spec(words_spec(end)) - mem_cost_spec(words_spec(old_len))
    } else {
        0
    }
}

/// Base cost of a call: 700, and 9000 more when value is transferred.
pub open spec fn call_base_spec(has_value: bool) -> int {
    if has_value {
        9700
    } else {
        700
    }
}

/// Gas left once the base cost of a call is paid, never negative.
pub open spec fn avail_after_base_spec(available: int, has_value: bool) -> int {
    if available > call_base_spec(has_value) {
        available - call_base_spec(has_value)
    } else {
        0
    }
}

/// Gas handed to a callee: what was asked for, capped at all but one 64th
/// of what is left after the base cost.
pub open spec fn call_forward_spec(available: int, requested: int, has_value: bool) -> int {
    let avail = avail_after_base_spec(available, has_value);
    let cap = avail - avail / 64;
    if requested <= cap {
        requested
    } else {
        cap
    }
}

pub fn words(size: usize) -> (w: u64)
    ensures
        w == words_spec(size as int),
{
    let whole: u64 = (size / 32) as u64;
    if size % 32 == 0 {
        whole
    } else {
        whole + 1
    }
}

pub fn mem_cost(words: u64) -> (cost: u128)
    ensures
        cost == mem_cost_spec(words as int),
{
    let w: u128 = words as u128;
    assert(w * w <= 0xffff_ffff_ffff_ffff * 0xffff_ffff_ffff_ffff) by (nonlinear_arith)
        requires
            w <= 0xffff_ffff_ffff_ffff,
    ;
    3 * w + (w * w) / 512
}

/// Gas charged for growing a memory of `old_len` bytes to cover `end` bytes.
pub fn expansion_cost(old_len: usize, end: usize) -> (cost: u128)
    ensures
        cost == expansion_cost_spec(old_len as int, end as int),
        cost <= 0x4000_0000_0000_0000_0000_0000_0000,
{
    let before: u64 = words(old_len);
    let after: u64 = words(end);
    if after > before {
        proof {
            lemma_mem_cost_monotonic(before as int, after as int);
            let w = after as int;
            assert(w * w <= 0x800_0000_0000_0000 * 0x800_0000_0000_0000) by (nonlinear_arith)
                requires
                    0 <= w <= 0x800_0000_0000_0000,
            ;
        }
        mem_cost(after) - mem_cost(before)
    } else {
        0
    }
}

pub fn call_gas(available: i128, requested: u128, has_value: bool) -> (r: (u128, u64))
    ensures
        r.0 == call_forward_spec(available as int, requested as int, has_value),
        r.1 == call_base_spec(has_value),
{
    let base: u64 = if has_value {
        9700
    } else {
        700
    };
    let avail_after_base: u128 = if available > (base as i128) {
        (available - (base as i128)) as u128
    } else {
        0
    };
    let cap: u128 = avail_after_base - (avail_after_base / 64);
    let forward: u128 = if requested <= cap {
        requested
    } else {
        cap
    };
    (forward, base)
}

/// The total cost of a memory never falls when the memory grows by whole
/// words.
pub proof fn lemma_mem_cost_monotonic(w1: int, w2: int)
    requires
        0 <= w1 <= w2,
    ensures
        mem_cost_spec(w1) <= mem_cost_spec(w2),
{
    assert(w1 * w1 <= w2 * w2) by (nonlinear_arith)
        requires
            0 <= w1 <= w2,
    ;
}

/// The memory cost is monotonic in the highest byte touched: covering more
/// bytes never costs less in total, and growing a memory never has a
/// negative price.
pub proof fn lemma_memory_cost_monotonic_in_length(len1: int, len2: int)
    requires
        0 <= len1 <= len2,
    ensures
        words_spec(len1) <= words_spec(len2),
        mem_cost_spec(words_spec(len1)) <= mem_cost_spec(words_spec(len2)),
        expansion_cost_spec(len1, len2) >= 0,
        expansion_cost_spec(len1, len2) == mem_cost_spec(words_spec(len2)) - mem_cost_spec(
            words_spec(len1),
        ),
{
    lemma_mem_cost_monotonic(words_spec(len1), words_spec(len2));
}

} // verus!
