//! Laws of the machine, proved of its model.

use crate::address::Address;
use crate::memory::lemma_mstore_mload_round_trip;
use crate::model::{
    call_args, call_plan, call_with_world, child_result, ChildResult, EvmState, fail,
    finish_spawn, is_call_op, is_create_op, is_log_op, jump_spec, jumpi_spec, lemma_child_is_smaller, lemma_step_uses_gas, mload_op_spec,
    mstore_op_spec, plain_step_spec, run_spec, running, Spawn, spawn_spec, step_cost, step_spec,
    top,
};
use crate::jumpdest::jumpdest_set;
use crate::opcodes::{CALL, CREATE, CREATE2, JUMP, JUMPI, SSTORE, STATICCALL};
use crate::types::EvmError;
use crate::word::{lemma_from_nat_of_value, lemma_value_bound, Word, word_modulus};
use crate::world::{account_of, AccountView, transfer_spec};
use vstd::prelude::*;

verus! {

/// Whether every address holds the same account in two worlds, an address
/// without an entry standing for the default account.
pub open spec fn same_accounts(
    a: Option<Map<Address, AccountView>>,
    b: Option<Map<Address, AccountView>>,
) -> bool {
    match (a, b) {
        (Some(x), Some(y)) => forall|addr: Address|
            #[trigger] account_of(x, addr) == account_of(y, addr),
        (None, None) => true,
        _ => false,
    }
}

/// What the child of the call or creation at the program counter handed
/// back, where the instruction got as far as that.
pub open spec fn spawned_result(s: EvmState) -> Option<ChildResult> {
    let op = s.code[s.pc];
    if s.gas < 0 || !(is_call_op(op) || is_create_op(op)) {
        None
    } else {
        match spawn_spec(s, op) {
            Spawn::Fail(_) => None,
            Spawn::Done(r) => Some(r),
            Spawn::Run(child) => Some(child_result(run_spec(child))),
        }
    }
}

/// Whether a frame keeps the limits of a frame: at most 1024 items on the
/// stack, and a program counter that is not past the end of the code.
pub open spec fn within_limits(s: EvmState) -> bool {
    s.stack.len() <= 1024 && 0 <= s.pc <= s.code.len()
}

#[verifier::rlimit(50)]
proof fn lemma_plain_step_keeps_limits(s: EvmState, op: u8)
    requires
        within_limits(s),
        s.pc < s.code.len(),
        !is_call_op(op),
        !is_create_op(op),
    ensures
        within_limits(plain_step_spec(s, op).state),
        plain_step_spec(s, op).state.code == s.code,
{
    reveal(plain_step_spec);
}

#[verifier::rlimit(50)]
proof fn lemma_spawn_keeps_limits(s: EvmState, op: u8, r: ChildResult)
    requires
        within_limits(s),
        s.pc < s.code.len(),
        is_call_op(op) || is_create_op(op),
        !(spawn_spec(s, op) is Fail),
    ensures
        within_limits(finish_spawn(s, op, r).state),
        finish_spawn(s, op, r).state.code == s.code,
        spawn_spec(s, op) matches Spawn::Fail(out) ==> within_limits(out.state) && out.state.code
            == s.code,
{
}

#[verifier::rlimit(50)]
proof fn lemma_failed_spawn_keeps_limits(s: EvmState, op: u8)
    requires
        within_limits(s),
        is_call_op(op) || is_create_op(op),
        spawn_spec(s, op) is Fail,
    ensures
        within_limits(spawn_spec(s, op)->Fail_0.state),
        spawn_spec(s, op)->Fail_0.state.code == s.code,
{
}

/// A step keeps the limits of a frame, whether it succeeds or fails, and
/// does not change the code.
#[verifier::rlimit(50)]
pub proof fn lemma_step_keeps_limits(s: EvmState)
    requires
        within_limits(s),
        s.pc < s.code.len(),
    ensures
        within_limits(step_spec(s).state),
        step_spec(s).state.code == s.code,
{
    reveal(step_spec);
    let op = s.code[s.pc];
    if s.gas < 0 {
    } else if is_call_op(op) || is_create_op(op) {
        match spawn_spec(s, op) {
            Spawn::Fail(out) => {
                lemma_failed_spawn_keeps_limits(s, op);
            },
            Spawn::Done(r) => {
                lemma_spawn_keeps_limits(s, op, r);
            },
            Spawn::Run(child) => {
                lemma_spawn_keeps_limits(s, op, child_result(run_spec(child)));
            },
        }
    } else {
        lemma_plain_step_keeps_limits(s, op);
    }
}

/// A run keeps the limits of a frame, whether it succeeds or fails: after
/// it the stack holds at most 1024 items.
pub proof fn lemma_run_keeps_limits(s: EvmState)
    requires
        within_limits(s),
    ensures
        within_limits(run_spec(s).state),
        run_spec(s).state.code == s.code,
    decreases s.gas, 2 * s.stack.len() + 1,
{
    reveal(step_spec);
    if running(s) {
        lemma_step_keeps_limits(s);
        let out = step_spec(s);
        if out.error is None && 0 <= out.state.gas < s.gas {
            lemma_run_keeps_limits(out.state);
        }
    }
}

/// A run that succeeds ends with a frame that has halted or left its code.
#[verifier::rlimit(50)]
pub proof fn lemma_run_ends(s: EvmState)
    requires
        run_spec(s).error is None,
    ensures
        !running(run_spec(s).state),
    decreases s.gas, 2 * s.stack.len() + 1,
{
    reveal(step_spec);
    if running(s) {
        let out = step_spec(s);
        lemma_step_uses_gas(s);
        if 0 <= out.state.gas < s.gas {
            lemma_run_ends(out.state);
        }
    }
}

/// A jump that is taken lands on a valid jump target: a position of the
/// code that holds a JUMPDEST byte.
#[verifier::rlimit(50)]
pub proof fn lemma_jump_lands_on_jumpdest(s: EvmState)
    requires
        s.code[s.pc] == JUMP || s.code[s.pc] == JUMPI,
        step_spec(s).error is None,
        step_spec(s).state.pc != s.pc + 1,
    ensures
        0 <= step_spec(s).state.pc < s.code.len(),
        jumpdest_set(s.code).contains(step_spec(s).state.pc as usize),
        s.code[step_spec(s).state.pc] == crate::opcodes::JUMPDEST,
{
    reveal(step_spec);
    reveal(plain_step_spec);
    assert(step_spec(s) == if s.code[s.pc] == JUMP {
        jump_spec(s)
    } else {
        jumpi_spec(s)
    });
}

/// A step that succeeds takes exactly the cost of its instruction off the
/// gas of the frame.
pub proof fn lemma_step_charges_its_cost(s: EvmState)
    requires
        step_spec(s).error is None,
    ensures
        s.gas - step_spec(s).state.gas == step_cost(s),
{
    lemma_step_uses_gas(s);
}

/// A step that fails leaves the frame as it was, but for its gas.
#[verifier::rlimit(50)]
pub proof fn lemma_failed_step_keeps_frame(s: EvmState)
    requires
        step_spec(s).error is Some,
    ensures
        step_spec(s).state == (EvmState { gas: step_spec(s).state.gas, ..s }),
{
    reveal(step_spec);
    reveal(plain_step_spec);
}

/// A call or a creation whose child fails or reverts pushes zero and leaves
/// the world and the logs of the parent exactly as they were.
#[verifier::rlimit(50)]
pub proof fn lemma_failed_child_keeps_world(s: EvmState)
    requires
        spawned_result(s) is Some,
        !spawned_result(s)->0.success,
    ensures
        step_spec(s).error is None,
        step_spec(s).state.world == s.world,
        step_spec(s).state.logs == s.logs,
        step_spec(s).state.stack.last() == Word::zero_spec(),
{
    reveal(step_spec);
}

/// In a static frame SSTORE, LOG0 to LOG4, CREATE, CREATE2 and a CALL that
/// moves value fail as violations, and leave the frame as it was.
#[verifier::rlimit(50)]
pub proof fn lemma_static_violation(s: EvmState)
    requires
        s.is_static,
        s.gas >= 0,
        ({
            let op = s.code[s.pc];
            op == SSTORE || is_log_op(op) || op == CREATE || op == CREATE2 || (op == CALL
                && s.stack.len() >= 7 && top(s, 2) != Word::zero_spec())
        }),
    ensures
        step_spec(s) == fail(s, EvmError::StaticViolation),
{
    reveal(step_spec);
    reveal(plain_step_spec);
}

/// The child of a static frame is static.
#[verifier::rlimit(50)]
pub proof fn lemma_child_of_static_is_static(s: EvmState)
    requires
        s.is_static,
        spawn_spec(s, s.code[s.pc]) is Run,
        is_call_op(s.code[s.pc]) || is_create_op(s.code[s.pc]),
    ensures
        spawn_spec(s, s.code[s.pc])->Run_0.is_static,
{
}

/// A STATICCALL, or any call out of a static frame, whose callee begins
/// with SSTORE, LOG0 to LOG4, CREATE or CREATE2 pushes zero and leaves the
/// world and the logs of the caller exactly as they were.
#[verifier::rlimit(50)]
pub proof fn lemma_violation_in_static_child(s: EvmState)
    requires
        s.gas >= 0,
        is_call_op(s.code[s.pc]),
        s.code[s.pc] == STATICCALL || s.is_static,
        spawn_spec(s, s.code[s.pc]) is Run,
        ({
            let child = spawn_spec(s, s.code[s.pc])->Run_0;
            &&& child.code.len() > 0
            &&& child.code[0] == SSTORE || is_log_op(child.code[0]) || child.code[0] == CREATE
                || child.code[0] == CREATE2
        }),
    ensures
        step_spec(s).error is None,
        step_spec(s).state.stack.last() == Word::zero_spec(),
        step_spec(s).state.world == s.world,
        step_spec(s).state.logs == s.logs,
{
    let op = s.code[s.pc];
    let child = spawn_spec(s, op)->Run_0;
    lemma_child_is_smaller(s, op);
    assert(call_plan(s, op) == call_with_world(s, op, s.world->0));
    assert(child.is_static && child.pc == 0 && child.halted is None);
    lemma_static_violation(child);
    reveal(step_spec);
    assert(running(child));
    assert(run_spec(child) == step_spec(child));
    assert(spawned_result(s) == Some(child_result(run_spec(child))));
    lemma_failed_child_keeps_world(s);
}

/// Moving no value leaves every account as it was.
pub proof fn lemma_transfer_of_zero(
    w: Map<Address, AccountView>,
    from: Address,
    to: Address,
)
    ensures
        same_accounts(Some(transfer_spec(w, from, to, Word::zero_spec())), Some(w)),
{
    let zero = Word::zero_spec();
    assert forall|b: Word| b.sub_spec(zero) == b && b.add_spec(zero) == b by {
        lemma_value_bound(b);
        lemma_from_nat_of_value(b);
        let m = word_modulus() as int;
        let v = b.value() as int;
        assert((v + m - 0) % m == v) by {
            vstd::arithmetic::div_mod::lemma_mod_add_multiples_vanish(v, m);
            vstd::arithmetic::div_mod::lemma_small_mod(v as nat, m as nat);
        }
        assert((v + 0) % m == v) by {
            vstd::arithmetic::div_mod::lemma_small_mod(v as nat, m as nat);
        }
    }
    let moved = transfer_spec(w, from, to, zero);
    assert forall|addr: Address| #[trigger] account_of(moved, addr) == account_of(w, addr) by {
        let sender = account_of(w, from);
        let debited = w.insert(from, AccountView { balance: sender.balance.sub_spec(zero), ..sender });
        assert(account_of(debited, from) == sender);
    }
}

#[verifier::rlimit(50)]
proof fn lemma_static_plain_step(s: EvmState, op: u8)
    requires
        s.is_static,
        !is_call_op(op),
        !is_create_op(op),
    ensures
        plain_step_spec(s, op).state.is_static,
        plain_step_spec(s, op).state.logs == s.logs,
        plain_step_spec(s, op).state.world == s.world,
{
    reveal(plain_step_spec);
}

/// A step of a static frame leaves the logs as they were and every account
/// as it was, and the frame static.
#[verifier::rlimit(50)]
pub proof fn lemma_static_step(s: EvmState)
    requires
        s.is_static,
    ensures
        step_spec(s).state.is_static,
        step_spec(s).state.logs == s.logs,
        same_accounts(step_spec(s).state.world, s.world),
    decreases s.gas, 2 * s.stack.len(),
{
    reveal(step_spec);
    let op = s.code[s.pc];
    if s.gas < 0 {
        lemma_same_accounts_reflexive(s.world);
    } else if is_call_op(op) || is_create_op(op) {
        match spawn_spec(s, op) {
            Spawn::Fail(out) => {
                lemma_same_accounts_reflexive(s.world);
            },
            Spawn::Done(r) => {
                lemma_same_accounts_reflexive(s.world);
                assert(is_call_op(op));
                assert(s.logs + Seq::<crate::types::LogView>::empty() =~= s.logs);
            },
            Spawn::Run(child) => {
                lemma_child_is_smaller(s, op);
                assert(is_call_op(op));
                lemma_static_run(child);
                let w = s.world->0;
                let a = call_args(s, op);
                assert(call_plan(s, op) == call_with_world(s, op, w));
                if op == CALL {
                    assert(a.value == Word::zero_spec());
                    lemma_transfer_of_zero(w, crate::model::address_or_zero(s.address), a.to);
                }
                assert(same_accounts(child.world, s.world));
                let r = child_result(run_spec(child));
                if r.success {
                    lemma_same_accounts_transitive(r.world, child.world, s.world);
                    assert(s.logs + r.logs =~= s.logs);
                } else {
                    lemma_same_accounts_reflexive(s.world);
                }
            },
        }
    } else {
        lemma_static_plain_step(s, op);
        lemma_same_accounts_reflexive(s.world);
    }
}

/// A run of a static frame leaves the logs as they were and every account
/// as it was.
#[verifier::rlimit(50)]
pub proof fn lemma_static_run(s: EvmState)
    requires
        s.is_static,
    ensures
        run_spec(s).state.is_static,
        run_spec(s).state.logs == s.logs,
        same_accounts(run_spec(s).state.world, s.world),
    decreases s.gas, 2 * s.stack.len() + 1,
{
    reveal(step_spec);
    if !running(s) {
        lemma_same_accounts_reflexive(s.world);
    } else {
        lemma_static_step(s);
        let out = step_spec(s);
        if out.error is None && 0 <= out.state.gas < s.gas {
            lemma_static_run(out.state);
            lemma_same_accounts_transitive(run_spec(out.state).state.world, out.state.world, s.world);
        }
    }
}

pub proof fn lemma_same_accounts_reflexive(a: Option<Map<Address, AccountView>>)
    ensures
        same_accounts(a, a),
{
}

pub proof fn lemma_same_accounts_transitive(
    a: Option<Map<Address, AccountView>>,
    b: Option<Map<Address, AccountView>>,
    c: Option<Map<Address, AccountView>>,
)
    requires
        same_accounts(a, b),
        same_accounts(b, c),
    ensures
        same_accounts(a, c),
{
    if a is Some && b is Some && c is Some {
        assert forall|addr: Address| #[trigger]
            account_of(a->0, addr) == account_of(c->0, addr) by {
            assert(account_of(a->0, addr) == account_of(b->0, addr));
            assert(account_of(b->0, addr) == account_of(c->0, addr));
        }
    }
}

/// MSTORE followed by MLOAD at the same offset gives the stored word: a
/// load from the memory that a store left reads what was stored.
pub proof fn lemma_mstore_then_mload(s: EvmState, t: EvmState)
    requires
        mstore_op_spec(s).error is None,
        t.memory == mstore_op_spec(s).state.memory,
        t.stack.len() >= 1,
        top(t, 0) == top(s, 0),
        mload_op_spec(t).error is None,
    ensures
        mload_op_spec(t).state.stack.last() == top(s, 1),
        mload_op_spec(t).state.memory == t.memory,
{
    lemma_mstore_mload_round_trip(s.memory, top(s, 0).value() as int, top(s, 1));
}

} // verus!
