//! Helpers on byte vectors.

use vstd::prelude::*;

verus! {

/// Appends `src` to `dst`.
pub fn append_bytes(dst: &mut Vec<u8>, src: &[u8])
    ensures
        final(dst)@ == old(dst)@ + src@,
{
    let mut i: usize = 0;
    while i < src.len()
        invariant
            i <= src@.len(),
            dst@ == old(dst)@ + src@.subrange(0, i as int),
        decreases src@.len() - i,
    {
        dst.push(src[i]);
        i = i + 1;
        assert(dst@ =~= old(dst)@ + src@.subrange(0, i as int));
    }
    assert(src@.subrange(0, i as int) =~= src@);
}

/// A copy of `src[start..end]`.
pub fn copy_range(src: &[u8], start: usize, end: usize) -> (out: Vec<u8>)
    requires
        start <= end <= src@.len(),
    ensures
        out@ == src@.subrange(start as int, end as int),
{
    let mut out: Vec<u8> = Vec::new();
    let mut i: usize = start;
    while i < end
        invariant
            start <= i <= end <= src@.len(),
            out@ == src@.subrange(start as int, i as int),
        decreases end - i,
    {
        out.push(src[i]);
        i = i + 1;
        assert(out@ =~= src@.subrange(start as int, i as int));
    }
    out
}

/// `len` zero bytes.
pub open spec fn zeros(len: nat) -> Seq<u8> {
    Seq::new(len, |i: int| 0u8)
}

/// What a read of `len` bytes at `offset` sees in `src`: the bytes that are
/// there, and zero for every position past its end.
pub open spec fn read_padded_spec(src: Seq<u8>, offset: nat, len: nat) -> Seq<u8> {
    Seq::new(
        len,
        |i: int|
            if offset + i < src.len() {
                src[offset + i]
            } else {
                0u8
            },
    )
}

/// Reads `len` bytes at `offset` from `src`, with zero for every position
/// past its end. `None` stands for an offset beyond every `usize`.
pub fn read_padded(src: &[u8], offset: Option<usize>, len: usize) -> (out: Vec<u8>)
    ensures
        offset is Some ==> out@ == read_padded_spec(src@, offset->0 as nat, len as nat),
        offset is None ==> out@ == zeros(len as nat),
{
    let mut out: Vec<u8> = Vec::new();
    let mut i: usize = 0;
    while i < len
        invariant
            i <= len,
            out@.len() == i,
            offset is Some ==> forall|j: int|
                0 <= j < i ==> out@[j] == read_padded_spec(src@, offset->0 as nat, len as nat)[j],
            offset is None ==> forall|j: int| 0 <= j < i ==> out@[j] == 0u8,
        decreases len - i,
    {
        let b: u8 = match offset {
            Some(o) => {
                if i < src.len() && o < src.len() - i {
                    src[o + i]
                } else {
                    0
                }
            },
            None => 0,
        };
        out.push(b);
        i = i + 1;
    }
    proof {
        if offset is Some {
            assert(out@ =~= read_padded_spec(src@, offset->0 as nat, len as nat));
        } else {
            assert(out@ =~= zeros(len as nat));
        }
    }
    out
}

} // verus!
