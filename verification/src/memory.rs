//! The byte memory of a frame: growth by whole words, reads and writes.

use crate::bytes::{copy_range, zeros};
use crate::gas::words_spec;
use crate::word::{lemma_be_round_trip, Word};
use vstd::prelude::*;

verus! {

/// Length of a memory that covers `end` bytes: the next multiple of 32.
pub open spec fn aligned_len(end: int) -> int {
    words_spec(end) * 32
}

/// Whether a memory that covers `end` bytes can be held: rounding `end` up
/// to a whole word must not pass `usize::MAX`.
pub open spec fn mem_fits(end: int) -> bool {
    end + 31 <= usize::MAX
}

/// The memory after an access that ends at `end`: grown with zero bytes to
/// the next multiple of 32, or unchanged where it is long enough.
pub open spec fn expanded(mem: Seq<u8>, end: int) -> Seq<u8> {
    if aligned_len(end) > mem.len() {
        mem + zeros((aligned_len(end) - mem.len()) as nat)
    } else {
        mem
    }
}

/// `mem` with `data` written at `off`.
pub open spec fn write_at(mem: Seq<u8>, off: int, data: Seq<u8>) -> Seq<u8> {
    Seq::new(
        mem.len(),
        |i: int|
            if off <= i < off + data.len() {
                data[i - off]
            } else {
                mem[i]
            },
    )
}

/// The memory after a word is stored at `off`.
pub open spec fn mstore_spec(mem: Seq<u8>, off: int, w: Word) -> Seq<u8> {
    write_at(expanded(mem, off + 32), off, w.to_be_spec())
}

/// The word that a load at `off` reads, from a memory grown to cover it.
pub open spec fn mload_spec(mem: Seq<u8>, off: int) -> Word {
    Word::from_be_spec(expanded(mem, off + 32).subrange(off, off + 32))
}

/// The end of an access of `size` bytes at `offset`.
pub open spec fn region_end(offset: Word, size: Word) -> int {
    (offset.value() + size.value()) as int
}

/// Offset and size of an access as `usize`, where a memory that covers it
/// can be held.
pub fn mem_region(offset: &Word, size: &Word) -> (r: Option<(usize, usize)>)
    ensures
        r is Some <==> mem_fits(region_end(*offset, *size)),
        r matches Some(p) ==> p.0 as nat == offset.value() && p.1 as nat == size.value(),
{
    match (offset.to_usize(), size.to_usize()) {
        (Some(off), Some(sz)) => {
            if sz <= usize::MAX - 31 && off <= usize::MAX - 31 - sz {
                Some((off, sz))
            } else {
                None
            }
        },
        _ => None,
    }
}

/// Grows `mem` to cover `end` bytes.
pub fn expand_memory(mem: &mut Vec<u8>, end: usize)
    requires
        mem_fits(end as int),
    ensures
        final(mem)@ == expanded(old(mem)@, end as int),
        final(mem)@.len() >= end,
        final(mem)@.len() >= old(mem)@.len(),
{
    let whole: usize = end / 32;
    let target: usize = if end % 32 == 0 {
        end
    } else {
        (whole + 1) * 32
    };
    assert(target == aligned_len(end as int));
    if target > mem.len() {
        mem.resize(target, 0u8);
        assert(mem@ =~= old(mem)@ + zeros((target - old(mem)@.len()) as nat));
    }
}

/// Length of a memory of `len` bytes once it covers `end` bytes.
pub fn expanded_len(len: usize, end: usize) -> (n: usize)
    requires
        mem_fits(end as int),
    ensures
        n == if aligned_len(end as int) > len {
            aligned_len(end as int)
        } else {
            len as int
        },
{
    let whole: usize = end / 32;
    let target: usize = if end % 32 == 0 {
        end
    } else {
        (whole + 1) * 32
    };
    if target > len {
        target
    } else {
        len
    }
}

/// Writes `data` into `mem` at `off`.
pub fn write_bytes(mem: &mut Vec<u8>, off: usize, data: &[u8])
    requires
        off + data@.len() <= old(mem)@.len(),
    ensures
        final(mem)@ == write_at(old(mem)@, off as int, data@),
{
    let mut i: usize = 0;
    let total: usize = mem.len();
    while i < data.len()
        invariant
            i <= data@.len(),
            total == mem@.len(),
            off + data@.len() <= mem@.len(),
            mem@.len() == old(mem)@.len(),
            forall|j: int|
                0 <= j < mem@.len() ==> mem@[j] == if off <= j < off + i {
                    data@[j - off]
                } else {
                    old(mem)@[j]
                },
        decreases data@.len() - i,
    {
        mem[off + i] = data[i];
        i = i + 1;
    }
    assert(mem@ =~= write_at(old(mem)@, off as int, data@));
}

/// Reads the word at `off`.
pub fn load_word(mem: &Vec<u8>, off: usize) -> (w: Word)
    requires
        off + 32 <= mem@.len(),
    ensures
        w == Word::from_be_spec(mem@.subrange(off as int, off + 32)),
{
    let total: usize = mem.len();
    let bytes = copy_range(mem.as_slice(), off, off + 32);
    Word::from_be_bytes(bytes.as_slice())
}

/// Writes the 32 bytes of `w` at `off`.
pub fn store_word(mem: &mut Vec<u8>, off: usize, w: &Word)
    requires
        off + 32 <= old(mem)@.len(),
    ensures
        final(mem)@ == write_at(old(mem)@, off as int, w.to_be_spec()),
{
    let bytes = w.to_be_bytes();
    write_bytes(mem, off, bytes.as_slice());
}

/// An access never shrinks the memory, and the memory covers it afterwards.
pub proof fn lemma_expanded_covers(mem: Seq<u8>, end: int)
    requires
        0 <= end,
    ensures
        expanded(mem, end).len() >= end,
        expanded(mem, end).len() >= mem.len(),
        forall|i: int| 0 <= i < mem.len() ==> expanded(mem, end)[i] == mem[i],
        forall|i: int| mem.len() <= i < expanded(mem, end).len() ==> expanded(mem, end)[i] == 0,
{
}

/// A word stored at an offset is the word that a load at that offset reads.
pub proof fn lemma_mstore_mload_round_trip(mem: Seq<u8>, off: int, w: Word)
    requires
        0 <= off,
    ensures
        mload_spec(mstore_spec(mem, off, w), off) == w,
        expanded(mstore_spec(mem, off, w), off + 32) == mstore_spec(mem, off, w),
{
    let stored = mstore_spec(mem, off, w);
    lemma_be_round_trip(w);
    lemma_expanded_covers(mem, off + 32);
    assert(stored.len() == expanded(mem, off + 32).len());
    assert(expanded(stored, off + 32) == stored);
    assert(stored.subrange(off, off + 32) =~= w.to_be_spec());
}

} // verus!
