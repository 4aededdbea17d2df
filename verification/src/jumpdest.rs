//! Valid jump targets of a piece of bytecode.

use crate::opcodes::{JUMPDEST, PUSH1, PUSH32};
use std::collections::HashSet;
use vstd::prelude::*;

verus! {

broadcast use vstd::std_specs::hash::group_hash_axioms;

/// Number of immediate bytes that follow the opcode `op`: 1 to 32 for
/// PUSH1 to PUSH32, none for every other opcode.
pub open spec fn immediate_len(op: u8) -> int {
    if PUSH1 <= op && op <= PUSH32 {
        op - PUSH1 + 1
    } else {
        0
    }
}

/// Position of the instruction that follows the one at `pc`.
pub open spec fn next_op(code: Seq<u8>, pc: int) -> int {
    pc + 1 + immediate_len(code[pc])
}

/// Whether going from instruction to instruction, starting at `from`, one
/// arrives exactly at `p`.
pub open spec fn walk_reaches(code: Seq<u8>, from: int, p: int) -> bool
    decreases p - from,
{
    if from >= p {
        from == p
    } else if from < 0 || from >= code.len() || next_op(code, from) > p {
        false
    } else {
        walk_reaches(code, next_op(code, from), p)
    }
}

/// Whether an instruction starts at `p`, when the code is read from its
/// first byte.
pub open spec fn is_op_start(code: Seq<u8>, p: int) -> bool {
    0 <= p && walk_reaches(code, 0, p)
}

/// Whether `p` lies within the immediate bytes of a PUSH instruction.
pub open spec fn in_push_data(code: Seq<u8>, p: int) -> bool {
    exists|q: int|
        0 <= q < p && q < code.len() && #[trigger] is_op_start(code, q) && p <= q + immediate_len(
            code[q],
        )
}

/// The valid jump targets: the positions that hold a JUMPDEST byte and do
/// not lie within the immediate bytes of a PUSH.
pub open spec fn jumpdest_set(code: Seq<u8>) -> Set<usize> {
    Set::new(
        |p: usize| p < code.len() && code[p as int] == JUMPDEST && !in_push_data(code, p as int),
    )
}

/// A walk that passes through `mid` reaches from its start what it reaches
/// from `mid`.
pub proof fn lemma_walk_split(code: Seq<u8>, from: int, mid: int, p: int)
    requires
        0 <= from <= mid <= p,
        walk_reaches(code, from, mid),
    ensures
        walk_reaches(code, from, p) == walk_reaches(code, mid, p),
    decreases mid - from,
{
    if from < mid {
        lemma_walk_split(code, next_op(code, from), mid, p);
    }
}

/// The instruction after an instruction start is an instruction start.
pub proof fn lemma_next_is_op_start(code: Seq<u8>, pc: int)
    requires
        is_op_start(code, pc),
        pc < code.len(),
    ensures
        is_op_start(code, next_op(code, pc)),
{
    let next = next_op(code, pc);
    assert(walk_reaches(code, next, next));
    assert(walk_reaches(code, pc, next));
    lemma_walk_split(code, 0, pc, next);
}

/// No instruction starts strictly between an instruction and the next one.
pub proof fn lemma_no_start_inside(code: Seq<u8>, pc: int, p: int)
    requires
        is_op_start(code, pc),
        pc < code.len(),
        pc < p < next_op(code, pc),
    ensures
        !is_op_start(code, p),
{
    lemma_walk_split(code, 0, pc, p);
}

proof fn lemma_missed_is_push_data(code: Seq<u8>, from: int, p: int)
    requires
        is_op_start(code, from),
        from < p <= code.len(),
        !walk_reaches(code, from, p),
    ensures
        in_push_data(code, p),
    decreases p - from,
{
    let next = next_op(code, from);
    if next > p {
        assert(0 <= from < p && from < code.len() && is_op_start(code, from) && p <= from
            + immediate_len(code[from]));
    } else {
        assert(walk_reaches(code, p, p));
        lemma_next_is_op_start(code, from);
        lemma_missed_is_push_data(code, next, p);
    }
}

/// A position is an instruction start exactly if it does not lie within the
/// immediate bytes of a PUSH.
pub proof fn lemma_op_start_iff_not_push_data(code: Seq<u8>, p: int)
    requires
        0 <= p <= code.len(),
    ensures
        is_op_start(code, p) <==> !in_push_data(code, p),
{
    if is_op_start(code, p) {
        if in_push_data(code, p) {
            let q = choose|q: int|
                0 <= q < p && q < code.len() && #[trigger] is_op_start(code, q) && p <= q
                    + immediate_len(code[q]);
            lemma_no_start_inside(code, q, p);
        }
    } else {
        lemma_missed_is_push_data(code, 0, p);
    }
}

/// Collects the valid jump targets of `code`.
pub fn scan_jumpdests(code: &[u8]) -> (set: HashSet<usize>)
    ensures
        set@ == jumpdest_set(code@),
{
    let mut set: HashSet<usize> = HashSet::new();
    let mut pc: usize = 0;
    let len: usize = code.len();
    while pc < len
        invariant
            len == code@.len(),
            pc <= len,
            pc < len ==> is_op_start(code@, pc as int),
            forall|p: usize|
                set@.contains(p) <==> p < pc && code@[p as int] == JUMPDEST && is_op_start(
                    code@,
                    p as int,
                ),
        decreases len - pc,
    {
        let op: u8 = code[pc];
        let skip: usize = if op >= PUSH1 && op <= PUSH32 {
            (op - PUSH1) as usize + 2
        } else {
            1
        };
        if op == JUMPDEST {
            set.insert(pc);
        }
        let ghost here = pc as int;
        proof {
            lemma_next_is_op_start(code@, here);
            assert forall|p: int| here < p < next_op(code@, here) implies !is_op_start(
                code@,
                p,
            ) by {
                lemma_no_start_inside(code@, here, p);
            }
        }
        if len - pc <= skip {
            pc = len;
        } else {
            pc = pc + skip;
        }
    }
    proof {
        assert forall|p: usize| set@.contains(p) <==> jumpdest_set(code@).contains(p) by {
            if p < len {
                lemma_op_start_iff_not_push_data(code@, p as int);
            }
        }
        assert(set@ =~= jumpdest_set(code@));
    }
    set
}

} // verus!

