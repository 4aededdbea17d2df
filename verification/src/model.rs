//! The mathematical model of the machine: a frame as plain values, and what
//! one instruction does to it.
//!
//! Every instruction is described by three things: the checks that make it
//! fail, its gas cost, and the frame that it leaves. A failing instruction
//! leaves the frame as it was; running out of gas still takes the cost off
//! the meter.

use crate::address::Address;
use crate::bytes::read_padded_spec;
use crate::gas::{
    call_base_spec, call_forward_spec, expansion_cost_spec, lemma_memory_cost_monotonic_in_length,
    words_spec,
};
use crate::hash::keccak256;
use crate::jumpdest::jumpdest_set;
use crate::memory::{expanded, mem_fits, mload_spec, mstore_spec, region_end, write_at};
use crate::opcodes::{
    ADD, ADDRESS, AND, BALANCE, BASEFEE, BLOCKHASH, CALL, CALLCODE, CALLDATACOPY, CALLDATALOAD,
    CALLDATASIZE, CALLER, CALLVALUE, CHAINID, CODECOPY, CODESIZE, COINBASE, CREATE, CREATE2,
    DELEGATECALL, DIFFICULTY_PRAND, DIV, DUP1, DUP16, EQ, EXTCODECOPY, EXTCODEHASH, EXTCODESIZE,
    GAS, GASLIMIT_OP, GASPRICE, GT, ISZERO, JUMP, JUMPDEST, JUMPI, LOG0, LOG4, LT, MLOAD, MSIZE,
    MSTORE, MSTORE8, MUL, NOT, NUMBER, OR, ORIGIN, PC, POP, PUSH0, PUSH1, PUSH32, RETURN,
    RETURNDATACOPY, RETURNDATASIZE, REVERT, SELFBALANCE, SHA3, SLOAD, SSTORE, STATICCALL, STOP,
    SUB, SWAP1, SWAP16, TIMESTAMP, XOR,
};
use crate::types::{BlockEnv, EvmError, Halt, LogView};
use crate::word::Word;
use crate::rlp::{create2_address_spec, create_address_spec};
use crate::world::{
    account_of, AccountView, bump_nonce_spec, default_account, set_code_spec, storage_load,
    store_spec, transfer_spec,
};
use vstd::prelude::*;

verus! {

/// A frame as mathematical values.
pub struct EvmState {
    pub pc: int,
    pub gas: int,
    pub code: Seq<u8>,
    pub stack: Seq<Word>,
    pub memory: Seq<u8>,
    pub storage: Map<Word, Word>,
    pub calldata: Seq<u8>,
    pub return_data: Seq<u8>,
    pub last_return_data: Seq<u8>,
    pub halted: Option<Halt>,
    pub logs: Seq<LogView>,
    pub is_static: bool,
    pub refund: int,
    pub address: Option<Address>,
    pub caller: Option<Address>,
    pub origin: Option<Address>,
    pub callvalue: Word,
    pub gas_price: Word,
    pub block: BlockEnv,
    pub world: Option<Map<Address, AccountView>>,
}

/// The frame that an instruction leaves, and the error if it failed.
pub struct Outcome {
    pub state: EvmState,
    pub error: Option<EvmError>,
}

/// Most items that a stack holds.
pub open spec fn stack_limit() -> int {
    1024
}

pub open spec fn ok(s: EvmState) -> Outcome {
    Outcome { state: s, error: None }
}

/// Failure that leaves the frame as it was.
pub open spec fn fail(s: EvmState, e: EvmError) -> Outcome {
    Outcome { state: s, error: Some(e) }
}

/// Failure for want of gas: the cost is still taken off the meter.
pub open spec fn out_of_gas(s: EvmState, cost: int) -> Outcome {
    Outcome { state: EvmState { gas: s.gas - cost, ..s }, error: Some(EvmError::OutOfGas) }
}

/// The end of an instruction whose operands were there: it fails where the
/// stack of `next` is too deep, then where the gas does not cover `cost`,
/// and else leaves `next` with the cost paid.
pub open spec fn commit(s: EvmState, cost: int, next: EvmState) -> Outcome {
    if next.stack.len() > stack_limit() {
        fail(s, EvmError::StackOverflow)
    } else if s.gas < cost {
        out_of_gas(s, cost)
    } else {
        ok(EvmState { gas: s.gas - cost, ..next })
    }
}

/// The `i`-th item of the stack, counted from the top.
pub open spec fn top(s: EvmState, i: int) -> Word {
    s.stack[s.stack.len() - 1 - i]
}

/// The stack without its `k` topmost items.
pub open spec fn popped(s: EvmState, k: int) -> Seq<Word> {
    s.stack.subrange(0, s.stack.len() - k)
}

/// An instruction that takes `pops` items, puts `value` in their place and
/// goes on with the next byte.
pub open spec fn push_op(s: EvmState, pops: int, value: Word, cost: int) -> Outcome {
    if s.stack.len() < pops {
        fail(s, EvmError::StackUnderflow)
    } else {
        commit(s, cost, EvmState { stack: popped(s, pops).push(value), pc: s.pc + 1, ..s })
    }
}

/// The address of the frame, the zero address where none is set.
pub open spec fn self_address(s: EvmState) -> Address {
    match s.address {
        Some(a) => a,
        None => Address::zero_spec(),
    }
}

pub open spec fn address_or_zero(a: Option<Address>) -> Address {
    match a {
        Some(a) => a,
        None => Address::zero_spec(),
    }
}

/// The account at `addr` as the frame sees it: the default account where
/// there is no world or no entry.
pub open spec fn world_account(s: EvmState, addr: Address) -> AccountView {
    match s.world {
        Some(w) => account_of(w, addr),
        None => default_account(),
    }
}

/// What SLOAD reads for `key`: the storage of the frame's account where the
/// world holds it, the frame's own storage otherwise.
pub open spec fn sload_spec(s: EvmState, key: Word) -> Word {
    match (s.world, s.address) {
        (Some(w), Some(a)) => if w.contains_key(a) {
            storage_load(w[a].storage, key)
        } else {
            storage_load(s.storage, key)
        },
        _ => storage_load(s.storage, key),
    }
}

/// The frame after SSTORE wrote `val` for `key`: into the frame's account
/// where there is a world and an address, into the frame's own storage
/// otherwise.
pub open spec fn sstore_state(s: EvmState, key: Word, val: Word) -> EvmState {
    match (s.world, s.address) {
        (Some(w), Some(a)) => EvmState { world: Some(store_spec(w, a, key, val)), ..s },
        _ => EvmState { storage: s.storage.insert(key, val), ..s },
    }
}

// ---------------------------------------------------------------------------
// Arithmetic, comparison and logic
// ---------------------------------------------------------------------------

pub open spec fn is_binary_op(op: u8) -> bool {
    op == ADD || op == MUL || op == SUB || op == DIV || op == LT || op == GT || op == EQ || op
        == AND || op == OR || op == XOR
}

/// Result of a binary instruction on `a`, the top of the stack, and `b`,
/// the item below it.
pub open spec fn binary_value(op: u8, a: Word, b: Word) -> Word {
    if op == ADD {
        a.add_spec(b)
    } else if op == MUL {
        a.mul_spec(b)
    } else if op == SUB {
        a.sub_spec(b)
    } else if op == DIV {
        a.div_spec(b)
    } else if op == LT {
        Word::from_bool_spec(a.value() < b.value())
    } else if op == GT {
        Word::from_bool_spec(a.value() > b.value())
    } else if op == EQ {
        Word::from_bool_spec(a == b)
    } else if op == AND {
        a.and_spec(b)
    } else if op == OR {
        a.or_spec(b)
    } else {
        a.xor_spec(b)
    }
}

pub open spec fn binary_cost(op: u8) -> int {
    if op == MUL || op == DIV {
        5
    } else {
        3
    }
}

pub open spec fn binary_spec(s: EvmState, op: u8) -> Outcome {
    push_op(s, 2, binary_value(op, top(s, 0), top(s, 1)), binary_cost(op))
}

pub open spec fn is_unary_op(op: u8) -> bool {
    op == ISZERO || op == NOT
}

pub open spec fn unary_value(op: u8, a: Word) -> Word {
    if op == ISZERO {
        Word::from_bool_spec(a == Word::zero_spec())
    } else {
        a.not_spec()
    }
}

pub open spec fn unary_spec(s: EvmState, op: u8) -> Outcome {
    push_op(s, 1, unary_value(op, top(s, 0)), 3)
}

// ---------------------------------------------------------------------------
// Instructions that push a value of the context
// ---------------------------------------------------------------------------

pub open spec fn is_context_op(op: u8) -> bool {
    op == ADDRESS || op == ORIGIN || op == CALLER || op == CALLVALUE || op == GASPRICE || op
        == BLOCKHASH || op == COINBASE || op == TIMESTAMP || op == NUMBER || op
        == DIFFICULTY_PRAND || op == GASLIMIT_OP || op == CHAINID || op == SELFBALANCE || op
        == BASEFEE || op == RETURNDATASIZE || op == CALLDATASIZE || op == CODESIZE || op == PC
        || op == MSIZE || op == GAS || op == PUSH0
}

/// The balance that SELFBALANCE reads: zero without an address or a world.
pub open spec fn self_balance(s: EvmState) -> Word {
    match (s.address, s.world) {
        (Some(a), Some(w)) => account_of(w, a).balance,
        _ => Word::zero_spec(),
    }
}

pub open spec fn context_value(s: EvmState, op: u8) -> Word {
    if op == ADDRESS {
        address_or_zero(s.address).to_word_spec()
    } else if op == ORIGIN {
        address_or_zero(s.origin).to_word_spec()
    } else if op == CALLER {
        address_or_zero(s.caller).to_word_spec()
    } else if op == CALLVALUE {
        s.callvalue
    } else if op == GASPRICE {
        s.gas_price
    } else if op == COINBASE {
        s.block.coinbase.to_word_spec()
    } else if op == TIMESTAMP {
        Word::from_nat(s.block.timestamp as nat)
    } else if op == NUMBER {
        Word::from_nat(s.block.number as nat)
    } else if op == GASLIMIT_OP {
        s.block.gas_limit
    } else if op == CHAINID {
        s.block.chain_id
    } else if op == SELFBALANCE {
        self_balance(s)
    } else if op == BASEFEE {
        s.block.basefee
    } else if op == RETURNDATASIZE {
        Word::from_nat(s.last_return_data.len())
    } else if op == CALLDATASIZE {
        Word::from_nat(s.calldata.len())
    } else if op == CODESIZE {
        Word::from_nat(s.code.len())
    } else if op == PC {
        Word::from_nat(s.pc as nat)
    } else if op == MSIZE {
        Word::from_nat(s.memory.len())
    } else if op == GAS {
        Word::from_nat(s.gas as nat)
    } else {
        // BLOCKHASH, PREVRANDAO and PUSH0
        Word::zero_spec()
    }
}

pub open spec fn context_cost(op: u8) -> int {
    if op == BLOCKHASH {
        20
    } else if op == SELFBALANCE {
        5
    } else {
        2
    }
}

pub open spec fn context_spec(s: EvmState, op: u8) -> Outcome {
    push_op(s, 0, context_value(s, op), context_cost(op))
}

// ---------------------------------------------------------------------------
// Instructions that replace a key by what is found under it
// ---------------------------------------------------------------------------

pub open spec fn is_lookup_op(op: u8) -> bool {
    op == BALANCE || op == EXTCODESIZE || op == EXTCODEHASH || op == SLOAD || op == CALLDATALOAD
}

pub open spec fn lookup_value(s: EvmState, op: u8, arg: Word) -> Word {
    if op == BALANCE {
        world_account(s, Address::from_word_spec(arg)).balance
    } else if op == EXTCODESIZE {
        Word::from_nat(world_account(s, Address::from_word_spec(arg)).code.len())
    } else if op == EXTCODEHASH {
        Word::from_be_spec(keccak256(world_account(s, Address::from_word_spec(arg)).code))
    } else if op == SLOAD {
        sload_spec(s, arg)
    } else {
        Word::from_be_spec(read_padded_spec(s.calldata, arg.value(), 32))
    }
}

pub open spec fn lookup_cost(op: u8) -> int {
    if op == EXTCODEHASH {
        400
    } else if op == CALLDATALOAD {
        3
    } else {
        100
    }
}

pub open spec fn lookup_spec(s: EvmState, op: u8) -> Outcome {
    push_op(s, 1, lookup_value(s, op, top(s, 0)), lookup_cost(op))
}

// ---------------------------------------------------------------------------
// Stack instructions
// ---------------------------------------------------------------------------

pub open spec fn is_push_op(op: u8) -> bool {
    PUSH1 <= op && op <= PUSH32
}

pub open spec fn is_dup_op(op: u8) -> bool {
    DUP1 <= op && op <= DUP16
}

pub open spec fn is_swap_op(op: u8) -> bool {
    SWAP1 <= op && op <= SWAP16
}

/// Where the immediate bytes of the PUSH at `s.pc` end: at the end of the
/// code where it comes first.
pub open spec fn push_end(s: EvmState, op: u8) -> int {
    let end = s.pc + 1 + (op - PUSH1 + 1);
    if end <= s.code.len() {
        end
    } else {
        s.code.len() as int
    }
}

/// PUSH1 to PUSH32 push the immediate bytes that the code holds, read as a
/// number with the most significant byte first.
pub open spec fn push_spec(s: EvmState, op: u8) -> Outcome {
    let end = push_end(s, op);
    let value = Word::from_be_spec(s.code.subrange(s.pc + 1, end));
    commit(s, 3, EvmState { stack: s.stack.push(value), pc: end, ..s })
}

/// DUP`n` pushes a copy of the `n`-th item from the top.
pub open spec fn dup_spec(s: EvmState, op: u8) -> Outcome {
    let n = op - DUP1 + 1;
    if s.stack.len() < n {
        fail(s, EvmError::StackUnderflow)
    } else {
        commit(s, 3, EvmState { stack: s.stack.push(top(s, n - 1)), pc: s.pc + 1, ..s })
    }
}

/// SWAP`n` exchanges the top with the item `n` below it.
pub open spec fn swap_spec(s: EvmState, op: u8) -> Outcome {
    let n = op - SWAP1 + 1;
    let len = s.stack.len() as int;
    if len < n + 1 {
        fail(s, EvmError::StackUnderflow)
    } else {
        commit(
            s,
            3,
            EvmState {
                stack: s.stack.update(len - 1, top(s, n)).update(len - 1 - n, top(s, 0)),
                pc: s.pc + 1,
                ..s
            },
        )
    }
}

pub open spec fn pop_spec(s: EvmState) -> Outcome {
    if s.stack.len() < 1 {
        fail(s, EvmError::StackUnderflow)
    } else {
        commit(s, 2, EvmState { stack: popped(s, 1), pc: s.pc + 1, ..s })
    }
}

// ---------------------------------------------------------------------------
// Control flow and halting
// ---------------------------------------------------------------------------

/// Whether `dest` is a valid jump target of `code`.
pub open spec fn valid_jump(code: Seq<u8>, dest: Word) -> bool {
    dest.fits_usize() && jumpdest_set(code).contains(dest.value() as usize)
}

pub open spec fn jump_spec(s: EvmState) -> Outcome {
    if s.stack.len() < 1 {
        fail(s, EvmError::StackUnderflow)
    } else if !valid_jump(s.code, top(s, 0)) {
        fail(s, EvmError::InvalidJump(top(s, 0).low_usize_spec()))
    } else {
        commit(s, 8, EvmState { stack: popped(s, 1), pc: top(s, 0).value() as int, ..s })
    }
}

pub open spec fn jumpi_spec(s: EvmState) -> Outcome {
    if s.stack.len() < 2 {
        fail(s, EvmError::StackUnderflow)
    } else if top(s, 1) == Word::zero_spec() {
        commit(s, 10, EvmState { stack: popped(s, 2), pc: s.pc + 1, ..s })
    } else if !valid_jump(s.code, top(s, 0)) {
        fail(s, EvmError::InvalidJump(top(s, 0).low_usize_spec()))
    } else {
        commit(s, 10, EvmState { stack: popped(s, 2), pc: top(s, 0).value() as int, ..s })
    }
}

pub open spec fn jumpdest_spec(s: EvmState) -> Outcome {
    commit(s, 1, EvmState { pc: s.pc + 1, ..s })
}

/// STOP halts with empty return data.
pub open spec fn stop_spec(s: EvmState) -> Outcome {
    commit(
        s,
        0,
        EvmState {
            halted: Some(Halt::Stop),
            return_data: Seq::empty(),
            pc: s.code.len() as int,
            ..s
        },
    )
}

// ---------------------------------------------------------------------------
// Memory
// ---------------------------------------------------------------------------

/// Gas for growing the memory of the frame to cover `end` bytes.
pub open spec fn grow_cost(s: EvmState, end: int) -> int {
    expansion_cost_spec(s.memory.len() as int, end)
}

pub open spec fn mload_op_spec(s: EvmState) -> Outcome {
    let off = top(s, 0).value() as int;
    if s.stack.len() < 1 {
        fail(s, EvmError::StackUnderflow)
    } else if !mem_fits(off + 32) {
        fail(s, EvmError::MemoryAccess)
    } else {
        commit(
            s,
            3 + grow_cost(s, off + 32),
            EvmState {
                memory: expanded(s.memory, off + 32),
                stack: popped(s, 1).push(mload_spec(s.memory, off)),
                pc: s.pc + 1,
                ..s
            },
        )
    }
}

pub open spec fn mstore_op_spec(s: EvmState) -> Outcome {
    let off = top(s, 0).value() as int;
    if s.stack.len() < 2 {
        fail(s, EvmError::StackUnderflow)
    } else if !mem_fits(off + 32) {
        fail(s, EvmError::MemoryAccess)
    } else {
        commit(
            s,
            3 + grow_cost(s, off + 32),
            EvmState {
                memory: mstore_spec(s.memory, off, top(s, 1)),
                stack: popped(s, 2),
                pc: s.pc + 1,
                ..s
            },
        )
    }
}

pub open spec fn mstore8_op_spec(s: EvmState) -> Outcome {
    let off = top(s, 0).value() as int;
    if s.stack.len() < 2 {
        fail(s, EvmError::StackUnderflow)
    } else if !mem_fits(off + 1) {
        fail(s, EvmError::MemoryAccess)
    } else {
        commit(
            s,
            3 + grow_cost(s, off + 1),
            EvmState {
                memory: write_at(
                    expanded(s.memory, off + 1),
                    off,
                    seq![top(s, 1).low_byte_spec()],
                ),
                stack: popped(s, 2),
                pc: s.pc + 1,
                ..s
            },
        )
    }
}

/// SHA3 pops offset and length and pushes the digest of that piece of
/// memory.
pub open spec fn sha3_spec(s: EvmState) -> Outcome {
    let off = top(s, 0).value() as int;
    let size = top(s, 1).value() as int;
    let end = region_end(top(s, 0), top(s, 1));
    if s.stack.len() < 2 {
        fail(s, EvmError::StackUnderflow)
    } else if !mem_fits(end) {
        fail(s, EvmError::MemoryAccess)
    } else {
        let memory = expanded(s.memory, end);
        commit(
            s,
            30 + 6 * words_spec(size) + grow_cost(s, end),
            EvmState {
                memory: memory,
                stack: popped(s, 2).push(
                    Word::from_be_spec(keccak256(memory.subrange(off, off + size))),
                ),
                pc: s.pc + 1,
                ..s
            },
        )
    }
}

pub open spec fn is_copy_op(op: u8) -> bool {
    op == CALLDATACOPY || op == CODECOPY || op == RETURNDATACOPY || op == EXTCODECOPY
}

/// Number of operands of a copy instruction: EXTCODECOPY has the address on
/// top of the three that the others have.
pub open spec fn copy_arity(op: u8) -> int {
    if op == EXTCODECOPY {
        4
    } else {
        3
    }
}

/// The bytes that a copy instruction reads from.
pub open spec fn copy_source(s: EvmState, op: u8) -> Seq<u8> {
    if op == CALLDATACOPY {
        s.calldata
    } else if op == CODECOPY {
        s.code
    } else if op == RETURNDATACOPY {
        s.last_return_data
    } else {
        world_account(s, Address::from_word_spec(top(s, 0))).code
    }
}

/// Cost of a copy of `size` bytes, memory growth aside.
pub open spec fn copy_cost(op: u8, size: int) -> int {
    if op == EXTCODECOPY {
        100 + 3 * words_spec(size)
    } else if op == RETURNDATACOPY {
        3 + words_spec(size)
    } else {
        3 + 3 * words_spec(size)
    }
}

/// A copy instruction pops the offset in memory, the offset in the source
/// and the size, and writes that many bytes of the source to memory, with
/// zero for what lies past the end of the source.
pub open spec fn copy_spec(s: EvmState, op: u8) -> Outcome {
    let k = copy_arity(op);
    let mem_off = top(s, k - 3);
    let src_off = top(s, k - 2);
    let size = top(s, k - 1);
    let end = region_end(mem_off, size);
    if s.stack.len() < k {
        fail(s, EvmError::StackUnderflow)
    } else if !mem_fits(end) {
        fail(s, EvmError::MemoryAccess)
    } else {
        commit(
            s,
            copy_cost(op, size.value() as int) + grow_cost(s, end),
            EvmState {
                memory: write_at(
                    expanded(s.memory, end),
                    mem_off.value() as int,
                    read_padded_spec(copy_source(s, op), src_off.value(), size.value()),
                ),
                stack: popped(s, k),
                pc: s.pc + 1,
                ..s
            },
        )
    }
}

/// RETURN and REVERT pop offset and length, halt, and hand that piece of
/// memory out as return data.
pub open spec fn return_spec(s: EvmState, op: u8) -> Outcome {
    let off = top(s, 0).value() as int;
    let size = top(s, 1).value() as int;
    let end = region_end(top(s, 0), top(s, 1));
    if s.stack.len() < 2 {
        fail(s, EvmError::StackUnderflow)
    } else if !mem_fits(end) {
        fail(s, EvmError::MemoryAccess)
    } else {
        let memory = expanded(s.memory, end);
        commit(
            s,
            grow_cost(s, end),
            EvmState {
                memory: memory,
                stack: popped(s, 2),
                return_data: memory.subrange(off, off + size),
                halted: Some(
                    if op == RETURN {
                        Halt::Return
                    } else {
                        Halt::Revert
                    },
                ),
                pc: s.code.len() as int,
                ..s
            },
        )
    }
}

pub open spec fn is_log_op(op: u8) -> bool {
    LOG0 <= op && op <= LOG4
}

/// LOG`n` pops offset, length and `n` topics, and appends an entry with the
/// topics in the order in which they left the stack.
pub open spec fn log_spec(s: EvmState, op: u8) -> Outcome {
    let n = (op - LOG0) as int;
    let off = top(s, 0).value() as int;
    let size = top(s, 1).value() as int;
    let end = region_end(top(s, 0), top(s, 1));
    if s.is_static {
        fail(s, EvmError::StaticViolation)
    } else if s.stack.len() < 2 + n {
        fail(s, EvmError::StackUnderflow)
    } else if !mem_fits(end) {
        fail(s, EvmError::MemoryAccess)
    } else {
        let memory = expanded(s.memory, end);
        commit(
            s,
            8 + words_spec(size) + grow_cost(s, end),
            EvmState {
                memory: memory,
                stack: popped(s, 2 + n),
                logs: s.logs.push(
                    LogView {
                        topics: Seq::new(n as nat, |i: int| top(s, 2 + i)),
                        data: memory.subrange(off, off + size),
                    },
                ),
                pc: s.pc + 1,
                ..s
            },
        )
    }
}

// ---------------------------------------------------------------------------
// Storage
// ---------------------------------------------------------------------------

/// Cost of writing `val` where `current` stands.
pub open spec fn sstore_cost(current: Word, val: Word) -> int {
    if current == Word::zero_spec() && val != Word::zero_spec() {
        20000
    } else if current != Word::zero_spec() && val == Word::zero_spec() {
        5000
    } else {
        2900
    }
}

/// The refund counter after writing `val` where `current` stands: 15000
/// more for clearing a slot, never past `i128::MAX`.
pub open spec fn sstore_refund(refund: int, current: Word, val: Word) -> int {
    if current != Word::zero_spec() && val == Word::zero_spec() {
        if refund + 15000 <= i128::MAX {
            refund + 15000
        } else {
            i128::MAX as int
        }
    } else {
        refund
    }
}

pub open spec fn sstore_spec(s: EvmState) -> Outcome {
    let key = top(s, 0);
    let val = top(s, 1);
    let current = sload_spec(s, key);
    if s.is_static {
        fail(s, EvmError::StaticViolation)
    } else if s.stack.len() < 2 {
        fail(s, EvmError::StackUnderflow)
    } else {
        commit(
            s,
            sstore_cost(current, val),
            EvmState {
                stack: popped(s, 2),
                refund: sstore_refund(s.refund, current, val),
                pc: s.pc + 1,
                ..sstore_state(s, key, val)
            },
        )
    }
}

// ---------------------------------------------------------------------------
// Calls and creation
// ---------------------------------------------------------------------------

pub open spec fn is_call_op(op: u8) -> bool {
    op == CALL || op == CALLCODE || op == DELEGATECALL || op == STATICCALL
}

pub open spec fn is_create_op(op: u8) -> bool {
    op == CREATE || op == CREATE2
}

/// Whether a call instruction has a value among its operands.
pub open spec fn has_value_operand(op: u8) -> bool {
    op == CALL || op == CALLCODE
}

pub open spec fn call_arity(op: u8) -> int {
    if has_value_operand(op) {
        7
    } else {
        6
    }
}

/// The operands of a call instruction.
pub struct CallArgs {
    pub gas: Word,
    pub to: Address,
    pub value: Word,
    pub in_off: Word,
    pub in_size: Word,
    pub out_off: Word,
    pub out_size: Word,
}

/// The operands of the call instruction `op`, read from the top of the
/// stack down: gas, address, value where the instruction has one, then
/// offset and size of the input and of the output.
pub open spec fn call_args(s: EvmState, op: u8) -> CallArgs {
    if has_value_operand(op) {
        CallArgs {
            gas: top(s, 0),
            to: Address::from_word_spec(top(s, 1)),
            value: top(s, 2),
            in_off: top(s, 3),
            in_size: top(s, 4),
            out_off: top(s, 5),
            out_size: top(s, 6),
        }
    } else {
        CallArgs {
            gas: top(s, 0),
            to: Address::from_word_spec(top(s, 1)),
            value: Word::zero_spec(),
            in_off: top(s, 2),
            in_size: top(s, 3),
            out_off: top(s, 4),
            out_size: top(s, 5),
        }
    }
}

/// What a child frame hands to its parent. `world` and `logs` count only
/// where `success` holds.
pub struct ChildResult {
    pub success: bool,
    pub ret: Seq<u8>,
    pub world: Option<Map<Address, AccountView>>,
    pub logs: Seq<LogView>,
}

/// What a call or creation does once its checks have passed.
pub enum Spawn {
    /// The instruction fails.
    Fail(Outcome),
    /// No child frame runs; the result is known.
    Done(ChildResult),
    /// A child frame runs from this state.
    Run(EvmState),
}

/// A child that failed without return data.
pub open spec fn child_failure() -> ChildResult {
    ChildResult { success: false, ret: Seq::empty(), world: None, logs: Seq::empty() }
}

/// What the parent sees of a child that ran: an error is a failure without
/// return data; a revert is a failure that keeps its return data; any other
/// end is a success, with the child's world and logs.
pub open spec fn child_result(out: Outcome) -> ChildResult {
    if out.error is Some {
        child_failure()
    } else if out.state.halted == Some(Halt::Revert) {
        ChildResult {
            success: false,
            ret: out.state.return_data,
            world: None,
            logs: Seq::empty(),
        }
    } else {
        ChildResult {
            success: true,
            ret: out.state.return_data,
            world: out.state.world,
            logs: out.state.logs,
        }
    }
}

/// A fresh frame.
pub open spec fn new_frame(
    code: Seq<u8>,
    gas: int,
    calldata: Seq<u8>,
    address: Option<Address>,
    caller: Option<Address>,
    origin: Option<Address>,
    value: Word,
    gas_price: Word,
    block: BlockEnv,
    world: Option<Map<Address, AccountView>>,
    is_static: bool,
) -> EvmState {
    EvmState {
        pc: 0,
        gas: gas,
        code: code,
        stack: Seq::empty(),
        memory: Seq::empty(),
        storage: Map::empty(),
        calldata: calldata,
        return_data: Seq::empty(),
        last_return_data: Seq::empty(),
        halted: None,
        logs: Seq::empty(),
        is_static: is_static,
        refund: 0,
        address: address,
        caller: caller,
        origin: origin,
        callvalue: value,
        gas_price: gas_price,
        block: block,
        world: world,
    }
}

/// The address of the identity precompile.
pub open spec fn identity_precompile() -> Address {
    Address::from_low_u64_spec(4)
}

/// What the code built into the machine returns for a call to `addr`: the
/// input at the address of the identity precompile, nothing at any other
/// address.
pub open spec fn precompile_spec(addr: Address, input: Seq<u8>) -> Option<Seq<u8>> {
    if addr == identity_precompile() {
        Some(input)
    } else {
        None
    }
}

/// The memory after a call has grown it to cover first its input, then its
/// output.
pub open spec fn call_memory(s: EvmState, a: CallArgs) -> Seq<u8> {
    expanded(expanded(s.memory, region_end(a.in_off, a.in_size)), region_end(a.out_off, a.out_size))
}

/// Gas for the growth of memory in a call.
pub open spec fn call_mem_cost(s: EvmState, a: CallArgs) -> int {
    grow_cost(s, region_end(a.in_off, a.in_size)) + expansion_cost_spec(
        expanded(s.memory, region_end(a.in_off, a.in_size)).len() as int,
        region_end(a.out_off, a.out_size),
    )
}

/// Whether a call moves value.
pub open spec fn call_has_value(op: u8, a: CallArgs) -> bool {
    has_value_operand(op) && a.value != Word::zero_spec()
}

/// All that a call costs its frame: memory growth, the base cost and a flat
/// 40. What the child leaves unused is not given back.
pub open spec fn call_total_cost(s: EvmState, op: u8) -> int {
    let a = call_args(s, op);
    call_mem_cost(s, a) + call_base_spec(call_has_value(op, a)) + 40
}

/// Gas of the child of a call: what is forwarded of the gas left after
/// memory growth, and a stipend of 2300 where value moves.
pub open spec fn call_child_gas(s: EvmState, op: u8) -> int {
    let a = call_args(s, op);
    let has_value = call_has_value(op, a);
    call_forward_spec(s.gas - call_mem_cost(s, a), a.gas.value() as int, has_value) + if has_value {
        2300int
    } else {
        0int
    }
}

/// The input of a call: the piece of memory that its operands name.
pub open spec fn call_input(s: EvmState, a: CallArgs) -> Seq<u8> {
    call_memory(s, a).subrange(
        a.in_off.value() as int,
        region_end(a.in_off, a.in_size),
    )
}

/// What a call into the world `w` does: it fails where the balance does not
/// cover the value, and else runs the code of the callee in a child frame.
/// A child of a static frame is static, and so is every child of STATICCALL.
pub open spec fn call_with_world(
    s: EvmState,
    op: u8,
    w: Map<Address, AccountView>,
) -> Spawn {
    let a = call_args(s, op);
    let me = address_or_zero(s.address);
    let gas = call_child_gas(s, op);
    let input = call_input(s, a);
    if has_value_operand(op) && account_of(w, me).balance.value() < a.value.value() {
        Spawn::Done(child_failure())
    } else if op == CALL {
        let moved = transfer_spec(w, me, a.to, a.value);
        Spawn::Run(
            new_frame(
                account_of(moved, a.to).code,
                gas,
                input,
                Some(a.to),
                Some(me),
                s.origin,
                a.value,
                s.gas_price,
                s.block,
                Some(moved),
                s.is_static,
            ),
        )
    } else if op == CALLCODE {
        Spawn::Run(
            new_frame(
                account_of(w, a.to).code,
                gas,
                input,
                Some(me),
                Some(me),
                s.origin,
                a.value,
                s.gas_price,
                s.block,
                Some(w),
                s.is_static,
            ),
        )
    } else if op == DELEGATECALL {
        Spawn::Run(
            new_frame(
                account_of(w, a.to).code,
                gas,
                input,
                s.address,
                s.caller,
                s.origin,
                s.callvalue,
                s.gas_price,
                s.block,
                Some(w),
                s.is_static,
            ),
        )
    } else {
        Spawn::Run(
            new_frame(
                account_of(w, a.to).code,
                gas,
                input,
                Some(a.to),
                Some(me),
                s.origin,
                Word::zero_spec(),
                s.gas_price,
                s.block,
                Some(w),
                true,
            ),
        )
    }
}

/// The checks of a call, and what it does where they pass. A call to a
/// precompile returns what the precompile does, whatever the world holds; a
/// call without a world succeeds with no return data.
pub open spec fn call_plan(s: EvmState, op: u8) -> Spawn {
    let a = call_args(s, op);
    if s.stack.len() < call_arity(op) {
        Spawn::Fail(fail(s, EvmError::StackUnderflow))
    } else if op == CALL && s.is_static && a.value != Word::zero_spec() {
        Spawn::Fail(fail(s, EvmError::StaticViolation))
    } else if !mem_fits(region_end(a.in_off, a.in_size)) || !mem_fits(
        region_end(a.out_off, a.out_size),
    ) {
        Spawn::Fail(fail(s, EvmError::MemoryAccess))
    } else if s.gas < call_total_cost(s, op) {
        Spawn::Fail(out_of_gas(s, call_total_cost(s, op)))
    } else if precompile_spec(a.to, call_input(s, a)) is Some {
        Spawn::Done(
            ChildResult {
                success: true,
                ret: precompile_spec(a.to, call_input(s, a))->0,
                world: s.world,
                logs: Seq::empty(),
            },
        )
    } else {
        match s.world {
            None => Spawn::Done(
                ChildResult { success: true, ret: Seq::empty(), world: None, logs: Seq::empty() },
            ),
            Some(w) => call_with_world(s, op, w),
        }
    }
}

/// The frame after a call whose child handed back `r`: the result flag is
/// pushed, the return data is kept and written to the output region with
/// zeros behind it, and the world and the logs of the child are taken over
/// where it succeeded.
pub open spec fn finish_call(s: EvmState, op: u8, r: ChildResult) -> Outcome {
    let a = call_args(s, op);
    ok(
        EvmState {
            memory: write_at(
                call_memory(s, a),
                a.out_off.value() as int,
                read_padded_spec(r.ret, 0, a.out_size.value()),
            ),
            last_return_data: r.ret,
            stack: popped(s, call_arity(op)).push(Word::from_bool_spec(r.success)),
            world: if r.success {
                r.world
            } else {
                s.world
            },
            logs: if r.success {
                s.logs + r.logs
            } else {
                s.logs
            },
            gas: s.gas - call_total_cost(s, op),
            pc: s.pc + 1,
            ..s
        },
    )
}

pub open spec fn create_arity(op: u8) -> int {
    if op == CREATE2 {
        4
    } else {
        3
    }
}

/// The init code of a creation: the piece of memory that its operands name.
pub open spec fn create_init(s: EvmState) -> Seq<u8> {
    expanded(s.memory, region_end(top(s, 1), top(s, 2))).subrange(
        top(s, 1).value() as int,
        region_end(top(s, 1), top(s, 2)),
    )
}

/// The address of the contract that a creation makes.
pub open spec fn created_address(s: EvmState, op: u8) -> Address {
    let me = address_or_zero(s.address);
    if op == CREATE {
        create_address_spec(me, world_account(s, me).nonce)
    } else {
        create2_address_spec(me, top(s, 3), create_init(s))
    }
}

/// All that a creation costs its frame: memory growth and a flat 32000.
pub open spec fn create_total_cost(s: EvmState) -> int {
    grow_cost(s, region_end(top(s, 1), top(s, 2))) + 32000
}

/// The world in which the init code runs: CREATE has raised the nonce of
/// the creator, and the value has moved to the new account.
pub open spec fn create_world(
    s: EvmState,
    op: u8,
    w: Map<Address, AccountView>,
) -> Map<Address, AccountView> {
    let me = address_or_zero(s.address);
    transfer_spec(
        if op == CREATE {
            bump_nonce_spec(w, me)
        } else {
            w
        },
        me,
        created_address(s, op),
        top(s, 0),
    )
}

/// The checks of a creation, and what it does where they pass: without a
/// world, or where the balance does not cover the value, it fails without
/// running anything; else the init code runs in a child frame with all the
/// gas that is left after memory growth.
pub open spec fn create_plan(s: EvmState, op: u8) -> Spawn {
    let end = region_end(top(s, 1), top(s, 2));
    let me = address_or_zero(s.address);
    if s.is_static {
        Spawn::Fail(fail(s, EvmError::StaticViolation))
    } else if s.stack.len() < create_arity(op) {
        Spawn::Fail(fail(s, EvmError::StackUnderflow))
    } else if !mem_fits(end) {
        Spawn::Fail(fail(s, EvmError::MemoryAccess))
    } else if s.gas < create_total_cost(s) {
        Spawn::Fail(out_of_gas(s, create_total_cost(s)))
    } else {
        match s.world {
            None => Spawn::Done(child_failure()),
            Some(w) => if account_of(w, me).balance.value() < top(s, 0).value() {
                Spawn::Done(child_failure())
            } else {
                Spawn::Run(
                    new_frame(
                        create_init(s),
                        s.gas - grow_cost(s, end),
                        Seq::empty(),
                        Some(created_address(s, op)),
                        Some(me),
                        s.origin,
                        top(s, 0),
                        s.gas_price,
                        s.block,
                        Some(create_world(s, op, w)),
                        false,
                    ),
                )
            },
        }
    }
}

/// The frame after a creation whose child handed back `r`: where it
/// succeeded, its return data becomes the code of the new account, its
/// world and logs are taken over and the new address is pushed; else zero
/// is pushed.
pub open spec fn finish_create(s: EvmState, op: u8, r: ChildResult) -> Outcome {
    let created = created_address(s, op);
    ok(
        EvmState {
            memory: expanded(s.memory, region_end(top(s, 1), top(s, 2))),
            stack: popped(s, create_arity(op)).push(
                if r.success {
                    created.to_word_spec()
                } else {
                    Word::zero_spec()
                },
            ),
            world: if r.success {
                match r.world {
                    Some(cw) => Some(set_code_spec(cw, created, r.ret)),
                    None => s.world,
                }
            } else {
                s.world
            },
            logs: if r.success {
                s.logs + r.logs
            } else {
                s.logs
            },
            gas: s.gas - create_total_cost(s),
            pc: s.pc + 1,
            ..s
        },
    )
}

pub open spec fn spawn_spec(s: EvmState, op: u8) -> Spawn {
    if is_call_op(op) {
        call_plan(s, op)
    } else {
        create_plan(s, op)
    }
}

pub open spec fn finish_spawn(s: EvmState, op: u8, r: ChildResult) -> Outcome {
    if is_call_op(op) {
        finish_call(s, op, r)
    } else {
        finish_create(s, op, r)
    }
}

// ---------------------------------------------------------------------------
// One step, and a run
// ---------------------------------------------------------------------------

/// What the instruction `op` does to a frame, for every instruction that
/// runs no child frame. A byte that is no instruction fails.
#[verifier::opaque]
pub open spec fn plain_step_spec(s: EvmState, op: u8) -> Outcome {
    if op == STOP {
        stop_spec(s)
    } else if is_binary_op(op) {
        binary_spec(s, op)
    } else if is_unary_op(op) {
        unary_spec(s, op)
    } else if is_context_op(op) {
        context_spec(s, op)
    } else if is_lookup_op(op) {
        lookup_spec(s, op)
    } else if op == SHA3 {
        sha3_spec(s)
    } else if is_copy_op(op) {
        copy_spec(s, op)
    } else if op == POP {
        pop_spec(s)
    } else if op == MLOAD {
        mload_op_spec(s)
    } else if op == MSTORE {
        mstore_op_spec(s)
    } else if op == MSTORE8 {
        mstore8_op_spec(s)
    } else if op == SSTORE {
        sstore_spec(s)
    } else if op == JUMP {
        jump_spec(s)
    } else if op == JUMPI {
        jumpi_spec(s)
    } else if op == JUMPDEST {
        jumpdest_spec(s)
    } else if is_push_op(op) {
        push_spec(s, op)
    } else if is_dup_op(op) {
        dup_spec(s, op)
    } else if is_swap_op(op) {
        swap_spec(s, op)
    } else if op == RETURN || op == REVERT {
        return_spec(s, op)
    } else if is_log_op(op) {
        log_spec(s, op)
    } else {
        fail(s, EvmError::InvalidOpcode(op, s.pc as usize))
    }
}

/// Whether a frame has more to execute.
pub open spec fn running(s: EvmState) -> bool {
    0 <= s.pc < s.code.len() && s.halted is None
}

/// What one step does to a frame whose program counter is within its code.
/// A frame whose gas is below zero fails at once.
#[verifier::opaque]
pub open spec fn step_spec(s: EvmState) -> Outcome
    decreases s.gas, 2 * s.stack.len(),
{
    let op = s.code[s.pc];
    if s.gas < 0 {
        fail(s, EvmError::OutOfGas)
    } else if is_call_op(op) || is_create_op(op) {
        match spawn_spec(s, op) {
            Spawn::Fail(out) => out,
            Spawn::Done(r) => finish_spawn(s, op, r),
            Spawn::Run(child) => {
                proof {
                    lemma_child_is_smaller(s, op);
                }
                finish_spawn(s, op, child_result(run_spec(child)))
            },
        }
    } else {
        plain_step_spec(s, op)
    }
}

/// What a run does to a frame: step after step until the frame halts,
/// leaves its code or fails. Every step that leaves the frame running has
/// used gas (`lemma_step_uses_gas`), so the second branch is always taken
/// then.
pub open spec fn run_spec(s: EvmState) -> Outcome
    decreases s.gas, 2 * s.stack.len() + 1,
{
    if !running(s) {
        ok(s)
    } else {
        let out = step_spec(s);
        if out.error is Some {
            out
        } else if 0 <= out.state.gas < s.gas {
            run_spec(out.state)
        } else {
            out
        }
    }
}

/// Growing memory never has a negative price.
pub proof fn lemma_grow_cost_nonneg(len: int, end: int)
    requires
        0 <= len,
    ensures
        expansion_cost_spec(len, end) >= 0,
{
    if words_spec(end) > words_spec(len) {
        lemma_memory_cost_monotonic_in_length(len, end);
    }
}

/// The memory growth of a call never has a negative price.
pub proof fn lemma_call_mem_cost_nonneg(s: EvmState, a: CallArgs)
    ensures
        call_mem_cost(s, a) >= 0,
{
    lemma_grow_cost_nonneg(s.memory.len() as int, region_end(a.in_off, a.in_size));
    lemma_grow_cost_nonneg(
        expanded(s.memory, region_end(a.in_off, a.in_size)).len() as int,
        region_end(a.out_off, a.out_size),
    );
}

/// The child of a call that its frame can pay for has less gas than the
/// frame.
pub proof fn lemma_call_child_gas(s: EvmState, op: u8)
    requires
        s.gas >= call_total_cost(s, op),
    ensures
        0 <= call_child_gas(s, op) < s.gas,
{
    lemma_call_mem_cost_nonneg(s, call_args(s, op));
}

#[verifier::rlimit(50)]
proof fn lemma_call_child_is_smaller(s: EvmState, op: u8)
    requires
        s.gas >= 0,
        call_plan(s, op) is Run,
    ensures
        0 <= call_plan(s, op)->Run_0.gas < s.gas,
        call_plan(s, op)->Run_0.stack.len() == 0,
{
    lemma_call_child_gas(s, op);
    let w = s.world->0;
    assert(call_plan(s, op) == call_with_world(s, op, w));
    assert(call_with_world(s, op, w)->Run_0.gas == call_child_gas(s, op));
}

#[verifier::rlimit(50)]
proof fn lemma_create_child_is_smaller(s: EvmState, op: u8)
    requires
        s.gas >= 0,
        create_plan(s, op) is Run,
    ensures
        0 <= create_plan(s, op)->Run_0.gas <= s.gas,
        create_plan(s, op)->Run_0.stack.len() == 0,
        s.stack.len() >= 3,
{
    let end = region_end(top(s, 1), top(s, 2));
    lemma_grow_cost_nonneg(s.memory.len() as int, end);
    assert(create_plan(s, op)->Run_0.gas == s.gas - grow_cost(s, end));
}

/// The child of a call has less gas than its parent; the child of a
/// creation has no more, and an empty stack where the parent held
/// operands.
pub proof fn lemma_child_is_smaller(s: EvmState, op: u8)
    requires
        s.gas >= 0,
        is_call_op(op) || is_create_op(op),
        spawn_spec(s, op) is Run,
    ensures
        0 <= spawn_spec(s, op)->Run_0.gas <= s.gas,
        spawn_spec(s, op)->Run_0.stack.len() == 0,
        spawn_spec(s, op)->Run_0.gas < s.gas || s.stack.len() >= 3,
        is_call_op(op) ==> spawn_spec(s, op)->Run_0.gas < s.gas,
{
    if is_call_op(op) {
        lemma_call_child_is_smaller(s, op);
    } else {
        lemma_create_child_is_smaller(s, op);
    }
}

/// Whether two results of a child are the same to the parent: the world
/// and the logs of a child that failed are left aside.
pub open spec fn same_result(a: ChildResult, b: ChildResult) -> bool {
    &&& a.success == b.success
    &&& a.ret == b.ret
    &&& a.success ==> a.world == b.world && a.logs == b.logs
}

/// Results that are the same to the parent leave the same frame.
#[verifier::rlimit(50)]
pub proof fn lemma_same_result(s: EvmState, op: u8, a: ChildResult, b: ChildResult)
    requires
        same_result(a, b),
    ensures
        finish_spawn(s, op, a) == finish_spawn(s, op, b),
{
}

/// What an instruction costs where it runs no child frame and succeeds:
/// nothing for STOP, the growth of memory for RETURN and REVERT, and at
/// least one unit of gas for every other instruction.
pub open spec fn plain_cost(s: EvmState, op: u8) -> int {
    if op == STOP {
        0
    } else if is_binary_op(op) {
        binary_cost(op)
    } else if is_unary_op(op) {
        3
    } else if is_context_op(op) {
        context_cost(op)
    } else if is_lookup_op(op) {
        lookup_cost(op)
    } else if op == SHA3 {
        30 + 6 * words_spec(top(s, 1).value() as int) + grow_cost(
            s,
            region_end(top(s, 0), top(s, 1)),
        )
    } else if is_copy_op(op) {
        copy_cost(op, top(s, copy_arity(op) - 1).value() as int) + grow_cost(
            s,
            region_end(top(s, copy_arity(op) - 3), top(s, copy_arity(op) - 1)),
        )
    } else if op == POP {
        2
    } else if op == MLOAD || op == MSTORE {
        3 + grow_cost(s, top(s, 0).value() as int + 32)
    } else if op == MSTORE8 {
        3 + grow_cost(s, top(s, 0).value() as int + 1)
    } else if op == SSTORE {
        sstore_cost(sload_spec(s, top(s, 0)), top(s, 1))
    } else if op == JUMP {
        8
    } else if op == JUMPI {
        10
    } else if op == JUMPDEST {
        1
    } else if is_push_op(op) || is_dup_op(op) || is_swap_op(op) {
        3
    } else if op == RETURN || op == REVERT {
        grow_cost(s, region_end(top(s, 0), top(s, 1)))
    } else {
        // LOG0 to LOG4
        8 + words_spec(top(s, 1).value() as int) + grow_cost(s, region_end(top(s, 0), top(s, 1)))
    }
}

/// What the instruction at the program counter costs where it succeeds.
pub open spec fn step_cost(s: EvmState) -> int {
    let op = s.code[s.pc];
    if is_call_op(op) {
        call_total_cost(s, op)
    } else if is_create_op(op) {
        create_total_cost(s)
    } else {
        plain_cost(s, op)
    }
}

#[verifier::rlimit(50)]
proof fn lemma_plain_step_gas(s: EvmState, op: u8)
    requires
        s.gas >= 0,
        !is_call_op(op),
        !is_create_op(op),
        plain_step_spec(s, op).error is None,
    ensures
        plain_step_spec(s, op).state.gas == s.gas - plain_cost(s, op),
        plain_cost(s, op) >= 0,
        plain_step_spec(s, op).state.gas >= 0,
        s.halted is None && plain_step_spec(s, op).state.halted is None ==> plain_cost(s, op) >= 1,
{
    reveal(plain_step_spec);
    assert forall|end: int| #[trigger] grow_cost(s, end) >= 0 by {
        lemma_grow_cost_nonneg(s.memory.len() as int, end);
    }
}

#[verifier::rlimit(50)]
proof fn lemma_spawn_step_gas(s: EvmState, op: u8)
    requires
        s.gas >= 0,
        is_call_op(op) || is_create_op(op),
        op == s.code[s.pc],
        step_spec(s).error is None,
    ensures
        step_spec(s).state.gas == s.gas - step_cost(s),
        step_cost(s) >= 40,
        step_spec(s).state.gas >= 0,
{
    reveal(step_spec);
    lemma_call_mem_cost_nonneg(s, call_args(s, op));
    lemma_grow_cost_nonneg(s.memory.len() as int, region_end(top(s, 1), top(s, 2)));
}

/// A step that succeeds takes the cost of its instruction off the gas of
/// the frame, and leaves the gas at zero or above. Every instruction that
/// leaves the frame running costs at least one unit.
pub proof fn lemma_step_uses_gas(s: EvmState)
    requires
        step_spec(s).error is None,
    ensures
        s.gas >= 0,
        step_spec(s).state.gas == s.gas - step_cost(s),
        step_cost(s) >= 0,
        step_spec(s).state.gas >= 0,
        s.halted is None && step_spec(s).state.halted is None ==> step_cost(s) >= 1,
{
    reveal(step_spec);
    let op = s.code[s.pc];
    if is_call_op(op) || is_create_op(op) {
        lemma_spawn_step_gas(s, op);
    } else {
        lemma_plain_step_gas(s, op);
    }
}

/// A run is a step followed by a run, unless the step fails.
#[verifier::rlimit(50)]
pub proof fn lemma_run_unfold(s: EvmState)
    requires
        running(s),
    ensures
        step_spec(s).error is Some ==> run_spec(s) == step_spec(s),
        step_spec(s).error is None ==> run_spec(s) == run_spec(step_spec(s).state),
{
    reveal(step_spec);
    let out = step_spec(s);
    if out.error is None {
        lemma_step_uses_gas(s);
        if out.state.halted is Some {
            assert(!running(out.state));
            assert(run_spec(out.state) == ok(out.state));
        }
    }
}

} // verus!
