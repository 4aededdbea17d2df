//! The interpreter: a frame and its execution, one instruction at a time.

use crate::address::Address;
use crate::bytes::{copy_range, read_padded, read_padded_spec, zeros};
use crate::gas::{call_gas, expansion_cost, words};
use crate::hash::keccak_word;
use crate::jumpdest::{jumpdest_set, scan_jumpdests};
use crate::memory::{expand_memory, expanded_len, load_word, mem_region, store_word, write_bytes};
use crate::model::{
    binary_spec, call_args, call_arity, call_child_gas, call_input, call_memory, call_plan,
    call_total_cost, child_result, ChildResult, context_spec, copy_spec, create_arity,
    create_init, create_plan, create_total_cost, created_address, dup_spec, EvmState, finish_call,
    finish_create, is_binary_op, is_context_op, is_copy_op, is_dup_op, is_log_op, is_lookup_op,
    is_push_op, is_swap_op, is_unary_op, jump_spec, jumpdest_spec, jumpi_spec,
    lemma_call_child_gas, lemma_call_mem_cost_nonneg, lemma_grow_cost_nonneg, lemma_run_unfold,
    lemma_same_result, lemma_step_uses_gas, log_spec, lookup_spec, mload_op_spec, mstore8_op_spec,
    mstore_op_spec, new_frame, Outcome, plain_step_spec, pop_spec, precompile_spec, push_op,
    push_spec,
    return_spec, run_spec, running, same_result, sha3_spec, sload_spec, Spawn, sstore_spec,
    step_spec, stop_spec, swap_spec, unary_spec,
};
use crate::opcodes::{
    ADD, ADDRESS, AND, BALANCE, BASEFEE, BLOCKHASH, CALL, CALLCODE, CALLDATACOPY, CALLDATALOAD,
    CALLDATASIZE, CALLER, CALLVALUE, CHAINID, CODECOPY, CODESIZE, COINBASE, CREATE, CREATE2,
    DELEGATECALL, DIFFICULTY_PRAND, DIV, DUP1, DUP16, EQ, EXTCODECOPY, EXTCODEHASH, EXTCODESIZE,
    GAS, GASLIMIT_OP, GASPRICE, GT, ISZERO, JUMP, JUMPDEST, JUMPI, LOG0, LOG4, LT, MLOAD, MSIZE,
    MSTORE, MSTORE8, MUL, NOT, NUMBER, OR, ORIGIN, PC, POP, PUSH0, PUSH1, PUSH32, RETURN,
    RETURNDATACOPY, RETURNDATASIZE, REVERT, SELFBALANCE, SHA3, SLOAD, SSTORE, STATICCALL, STOP,
    SUB, SWAP1, SWAP16, TIMESTAMP, XOR,
};
pub use crate::types::{BlockEnv, EvmError, Halt, LogEntry};
use crate::types::log_views;
use crate::rlp::{create2_address, create_address};
use crate::word::Word;
use crate::world::AccountView;
pub use crate::world::{Account, World};
use crate::world::Storage;
use std::collections::HashSet;
use vstd::prelude::*;

verus! {

/// What a frame is made from, besides its code.
#[derive(Debug)]
pub struct EvmConfig {
    pub gas_limit: i128,
    pub calldata: Vec<u8>,
    pub address: Option<Address>,
    pub caller: Option<Address>,
    pub origin: Option<Address>,
    pub value: Word,
    pub gas_price: Word,
    pub block: BlockEnv,
    pub world: Option<World>,
}

impl Default for EvmConfig {
    /// Ten million gas, nothing else set.
    fn default() -> (cfg: EvmConfig)
        ensures
            cfg.gas_limit == 10_000_000,
            cfg.calldata@ == Seq::<u8>::empty(),
            cfg.address is None,
            cfg.caller is None,
            cfg.origin is None,
            cfg.value == Word::zero_spec(),
            cfg.gas_price == Word::zero_spec(),
            cfg.block == BlockEnv::default_spec(),
            cfg.world is None,
    {
        EvmConfig {
            gas_limit: 10_000_000,
            calldata: Vec::new(),
            address: None,
            caller: None,
            origin: None,
            value: Word::zero(),
            gas_price: Word::zero(),
            block: BlockEnv::default(),
            world: None,
        }
    }
}

/// A copy of a sequence of bytes.
fn copy_bytes(v: &Vec<u8>) -> (out: Vec<u8>)
    ensures
        out@ == v@,
{
    let out = copy_range(v.as_slice(), 0, v.len());
    assert(out@ =~= v@);
    out
}

/// A copy of a world, where there is one.
fn copy_world(world: &Option<World>) -> (out: Option<World>)
    ensures
        world_view(out) == world_view(*world),
{
    match world {
        Some(w) => Some(w.clone()),
        None => None,
    }
}

impl Clone for EvmConfig {
    fn clone(&self) -> (cfg: EvmConfig)
        ensures
            cfg.gas_limit == self.gas_limit,
            cfg.calldata@ == self.calldata@,
            cfg.address == self.address,
            cfg.caller == self.caller,
            cfg.origin == self.origin,
            cfg.value == self.value,
            cfg.gas_price == self.gas_price,
            cfg.block == self.block,
            world_view(cfg.world) == world_view(self.world),
    {
        EvmConfig {
            gas_limit: self.gas_limit,
            calldata: copy_bytes(&self.calldata),
            address: self.address,
            caller: self.caller,
            origin: self.origin,
            value: self.value,
            gas_price: self.gas_price,
            block: self.block,
            world: copy_world(&self.world),
        }
    }
}

/// A frame: the state of one invocation of a piece of code.
#[derive(Debug)]
pub struct Evm {
    pub pc: usize,
    pub gas: i128,
    pub code: Vec<u8>,
    pub stack: Vec<Word>,
    pub memory: Vec<u8>,
    /// Storage of a frame that runs without a world.
    pub storage: Storage,
    pub calldata: Vec<u8>,
    pub return_data: Vec<u8>,
    /// Return data of the most recent child frame.
    pub last_return_data: Vec<u8>,
    pub halted: Option<Halt>,
    pub logs: Vec<LogEntry>,
    pub is_static: bool,
    pub refund: i128,
    pub address: Option<Address>,
    pub caller: Option<Address>,
    pub origin: Option<Address>,
    pub callvalue: Word,
    pub gas_price: Word,
    pub block: BlockEnv,
    pub world: Option<World>,
    /// The valid jump targets of `code`, as `new` computed them.
    pub jumpdests: HashSet<usize>,
}

/// The world of a frame as mathematical values.
pub open spec fn world_view(world: Option<World>) -> Option<Map<Address, crate::world::AccountView>> {
    match world {
        Some(w) => Some(w@),
        None => None,
    }
}

impl View for Evm {
    type V = EvmState;

    open spec fn view(&self) -> EvmState {
        EvmState {
            pc: self.pc as int,
            gas: self.gas as int,
            code: self.code@,
            stack: self.stack@,
            memory: self.memory@,
            storage: self.storage@,
            calldata: self.calldata@,
            return_data: self.return_data@,
            last_return_data: self.last_return_data@,
            halted: self.halted,
            logs: log_views(self.logs@),
            is_static: self.is_static,
            refund: self.refund as int,
            address: self.address,
            caller: self.caller,
            origin: self.origin,
            callvalue: self.callvalue,
            gas_price: self.gas_price,
            block: self.block,
            world: world_view(self.world),
        }
    }
}

impl Clone for Evm {
    /// A copy of the frame. Its jump targets are computed anew from its
    /// code.
    #[verifier::rlimit(50)]
    fn clone(&self) -> (evm: Evm)
        ensures
            evm@ == self@,
            self.wf() ==> evm.wf(),
    {
        let mut stack: Vec<Word> = Vec::new();
        let mut i: usize = 0;
        while i < self.stack.len()
            invariant
                i <= self.stack@.len(),
                stack@ == self.stack@.subrange(0, i as int),
            decreases self.stack@.len() - i,
        {
            stack.push(self.stack[i]);
            i = i + 1;
            assert(stack@ =~= self.stack@.subrange(0, i as int));
        }
        assert(stack@ =~= self.stack@);
        let mut logs: Vec<LogEntry> = Vec::new();
        let mut j: usize = 0;
        while j < self.logs.len()
            invariant
                j <= self.logs@.len(),
                log_views(logs@) == log_views(self.logs@).subrange(0, j as int),
            decreases self.logs@.len() - j,
        {
            let ghost before = log_views(logs@);
            let entry = self.logs[j].clone();
            logs.push(entry);
            j = j + 1;
            assert(log_views(logs@) =~= before.push(self.logs@[j - 1]@));
            assert(log_views(logs@) =~= log_views(self.logs@).subrange(0, j as int));
        }
        assert(log_views(logs@) =~= log_views(self.logs@));
        let code = copy_bytes(&self.code);
        let jumpdests = scan_jumpdests(code.as_slice());
        Evm {
            pc: self.pc,
            gas: self.gas,
            code,
            stack,
            memory: copy_bytes(&self.memory),
            storage: self.storage.clone(),
            calldata: copy_bytes(&self.calldata),
            return_data: copy_bytes(&self.return_data),
            last_return_data: copy_bytes(&self.last_return_data),
            halted: self.halted,
            logs,
            is_static: self.is_static,
            refund: self.refund,
            address: self.address,
            caller: self.caller,
            origin: self.origin,
            callvalue: self.callvalue,
            gas_price: self.gas_price,
            block: self.block,
            world: copy_world(&self.world),
            jumpdests,
        }
    }
}

/// Whether a call left the frame and gave the result that the model
/// prescribes.
pub open spec fn agrees(out: Outcome, state: EvmState, r: Result<(), EvmError>) -> bool {
    out.state == state && match out.error {
        None => r is Ok,
        Some(e) => r == Err::<(), EvmError>(e),
    }
}

/// Upper limit of what a single instruction is ever charged.
pub open spec fn cost_limit() -> int {
    0x1_0000_0000_0000_0000_0000_0000_0000
}

fn address_or_zero(a: &Option<Address>) -> (r: Address)
    ensures
        r == crate::model::address_or_zero(*a),
{
    match a {
        Some(x) => *x,
        None => Address::zero(),
    }
}

impl Evm {
    /// The stack holds at most 1024 items, the program counter does not lie
    /// past the end of the code, and the jump targets are those of the
    /// code. `new` establishes this, `step` and `run` keep it.
    pub open spec fn wf(&self) -> bool {
        &&& self.stack@.len() <= 1024
        &&& self.pc <= self.code@.len()
        &&& self.jumpdests@ == jumpdest_set(self.code@)
    }

    /// A fresh frame for `code`.
    pub fn new(code: Vec<u8>, cfg: EvmConfig) -> (evm: Evm)
        ensures
            evm.wf(),
            evm@ == new_frame(
                code@,
                cfg.gas_limit as int,
                cfg.calldata@,
                cfg.address,
                cfg.caller,
                cfg.origin,
                cfg.value,
                cfg.gas_price,
                cfg.block,
                world_view(cfg.world),
                false,
            ),
    {
        let jumpdests = scan_jumpdests(code.as_slice());
        let evm = Evm {
            pc: 0,
            gas: cfg.gas_limit,
            code,
            stack: Vec::new(),
            memory: Vec::new(),
            storage: Storage::new(),
            calldata: cfg.calldata,
            return_data: Vec::new(),
            last_return_data: Vec::new(),
            halted: None,
            logs: Vec::new(),
            is_static: false,
            refund: 0,
            address: cfg.address,
            caller: cfg.caller,
            origin: cfg.origin,
            callvalue: cfg.value,
            gas_price: cfg.gas_price,
            block: cfg.block,
            world: cfg.world,
            jumpdests,
        };
        assert(log_views(evm.logs@) =~= Seq::<crate::types::LogView>::empty());
        evm
    }

    /// The `i`-th item of the stack, counted from the top.
    fn peek(&self, i: usize) -> (w: Word)
        requires
            i < self.stack@.len(),
        ensures
            w == crate::model::top(self@, i as int),
    {
        self.stack[self.stack.len() - 1 - i]
    }

    /// Ends an instruction that takes `pops` items and pushes `value`.
    fn finish_push(&mut self, pops: usize, value: Word, cost: i128) -> (r: Result<(), EvmError>)
        requires
            old(self).wf(),
            old(self).gas >= 0,
            0 <= cost <= cost_limit(),
            pops <= old(self).stack@.len(),
            old(self).pc < old(self).code@.len(),
        ensures
            final(self).wf(),
            agrees(push_op(old(self)@, pops as int, value, cost as int), final(self)@, r),
    {
        let len = self.stack.len();
        let code_len = self.code.len();
        if len - pops + 1 > 1024 {
            return Err(EvmError::StackOverflow);
        }
        if self.gas < cost {
            self.gas = self.gas - cost;
            return Err(EvmError::OutOfGas);
        }
        self.gas = self.gas - cost;
        self.stack.truncate(len - pops);
        self.stack.push(value);
        self.pc = self.pc + 1;
        Ok(())
    }

    fn step_binary(&mut self, op: u8) -> (r: Result<(), EvmError>)
        requires
            old(self).wf(),
            old(self).gas >= 0,
            old(self).pc < old(self).code@.len(),
            is_binary_op(op),
        ensures
            final(self).wf(),
            agrees(binary_spec(old(self)@, op), final(self)@, r),
    {
        if self.stack.len() < 2 {
            return Err(EvmError::StackUnderflow);
        }
        let a = self.peek(0);
        let b = self.peek(1);
        let value = if op == ADD {
            a.wrapping_add(b)
        } else if op == MUL {
            a.wrapping_mul(b)
        } else if op == SUB {
            a.wrapping_sub(b)
        } else if op == DIV {
            a.div_or_zero(b)
        } else if op == LT {
            Word::from_bool(a.lt(&b))
        } else if op == GT {
            Word::from_bool(a.gt(&b))
        } else if op == EQ {
            Word::from_bool(a == b)
        } else if op == AND {
            a.bitand(b)
        } else if op == OR {
            a.bitor(b)
        } else {
            a.bitxor(b)
        };
        let cost: i128 = if op == MUL || op == DIV {
            5
        } else {
            3
        };
        self.finish_push(2, value, cost)
    }

    fn step_unary(&mut self, op: u8) -> (r: Result<(), EvmError>)
        requires
            old(self).wf(),
            old(self).gas >= 0,
            old(self).pc < old(self).code@.len(),
            is_unary_op(op),
        ensures
            final(self).wf(),
            agrees(unary_spec(old(self)@, op), final(self)@, r),
    {
        if self.stack.len() < 1 {
            return Err(EvmError::StackUnderflow);
        }
        let a = self.peek(0);
        let value = if op == ISZERO {
            Word::from_bool(a.is_zero())
        } else {
            a.not()
        };
        self.finish_push(1, value, 3)
    }

    fn step_context(&mut self, op: u8) -> (r: Result<(), EvmError>)
        requires
            old(self).wf(),
            old(self).gas >= 0,
            old(self).pc < old(self).code@.len(),
            is_context_op(op),
        ensures
            final(self).wf(),
            agrees(context_spec(old(self)@, op), final(self)@, r),
    {
        let value = if op == ADDRESS {
            address_or_zero(&self.address).to_word()
        } else if op == ORIGIN {
            address_or_zero(&self.origin).to_word()
        } else if op == CALLER {
            address_or_zero(&self.caller).to_word()
        } else if op == CALLVALUE {
            self.callvalue
        } else if op == GASPRICE {
            self.gas_price
        } else if op == COINBASE {
            self.block.coinbase.to_word()
        } else if op == TIMESTAMP {
            Word::from_u64(self.block.timestamp)
        } else if op == NUMBER {
            Word::from_u64(self.block.number)
        } else if op == GASLIMIT_OP {
            self.block.gas_limit
        } else if op == CHAINID {
            self.block.chain_id
        } else if op == SELFBALANCE {
            self.self_balance()
        } else if op == BASEFEE {
            self.block.basefee
        } else if op == RETURNDATASIZE {
            Word::from_usize(self.last_return_data.len())
        } else if op == CALLDATASIZE {
            Word::from_usize(self.calldata.len())
        } else if op == CODESIZE {
            Word::from_usize(self.code.len())
        } else if op == PC {
            Word::from_usize(self.pc)
        } else if op == MSIZE {
            Word::from_usize(self.memory.len())
        } else if op == GAS {
            Word::from_u128(self.gas as u128)
        } else {
            Word::zero()
        };
        let cost: i128 = if op == BLOCKHASH {
            20
        } else if op == SELFBALANCE {
            5
        } else {
            2
        };
        self.finish_push(0, value, cost)
    }

    fn self_balance(&self) -> (b: Word)
        ensures
            b == crate::model::self_balance(self@),
    {
        match &self.address {
            Some(a) => match &self.world {
                Some(w) => w.balance_of(a),
                None => Word::zero(),
            },
            None => Word::zero(),
        }
    }

    /// What SLOAD reads for `key`.
    fn sload(&self, key: &Word) -> (v: Word)
        ensures
            v == sload_spec(self@, *key),
    {
        match &self.world {
            Some(w) => match &self.address {
                Some(a) => match w.get(a) {
                    Some(account) => account.storage.load(key),
                    None => self.storage.load(key),
                },
                None => self.storage.load(key),
            },
            None => self.storage.load(key),
        }
    }

    /// A copy of the code of `addr`, empty without a world.
    fn code_at(&self, addr: &Address) -> (code: Vec<u8>)
        ensures
            code@ == crate::model::world_account(self@, *addr).code,
    {
        match &self.world {
            Some(w) => w.code_of(addr),
            None => Vec::new(),
        }
    }

    fn step_lookup(&mut self, op: u8) -> (r: Result<(), EvmError>)
        requires
            old(self).wf(),
            old(self).gas >= 0,
            old(self).pc < old(self).code@.len(),
            is_lookup_op(op),
        ensures
            final(self).wf(),
            agrees(lookup_spec(old(self)@, op), final(self)@, r),
    {
        if self.stack.len() < 1 {
            return Err(EvmError::StackUnderflow);
        }
        let arg = self.peek(0);
        let value = if op == BALANCE {
            let addr = Address::from_word(&arg);
            match &self.world {
                Some(w) => w.balance_of(&addr),
                None => Word::zero(),
            }
        } else if op == EXTCODESIZE {
            let addr = Address::from_word(&arg);
            match &self.world {
                Some(w) => Word::from_usize(w.code_len_of(&addr)),
                None => Word::from_usize(0),
            }
        } else if op == EXTCODEHASH {
            let addr = Address::from_word(&arg);
            let code = self.code_at(&addr);
            keccak_word(code.as_slice())
        } else if op == SLOAD {
            self.sload(&arg)
        } else {
            let bytes = read_source(self.calldata.as_slice(), &arg, 32);
            Word::from_be_bytes(bytes.as_slice())
        };
        let cost: i128 = if op == EXTCODEHASH {
            400
        } else if op == CALLDATALOAD {
            3
        } else {
            100
        };
        self.finish_push(1, value, cost)
    }

    fn step_pop(&mut self) -> (r: Result<(), EvmError>)
        requires
            old(self).wf(),
            old(self).gas >= 0,
            old(self).pc < old(self).code@.len(),
        ensures
            final(self).wf(),
            agrees(pop_spec(old(self)@), final(self)@, r),
    {
        let len = self.stack.len();
        let code_len = self.code.len();
        if len < 1 {
            return Err(EvmError::StackUnderflow);
        }
        if self.gas < 2 {
            self.gas = self.gas - 2;
            return Err(EvmError::OutOfGas);
        }
        self.gas = self.gas - 2;
        self.stack.truncate(len - 1);
        self.pc = self.pc + 1;
        Ok(())
    }

    fn step_push(&mut self, op: u8) -> (r: Result<(), EvmError>)
        requires
            old(self).wf(),
            old(self).gas >= 0,
            old(self).pc < old(self).code@.len(),
            is_push_op(op),
        ensures
            final(self).wf(),
            agrees(push_spec(old(self)@, op), final(self)@, r),
    {
        let n: usize = (op - PUSH1) as usize + 1;
        let code_len = self.code.len();
        let start: usize = self.pc + 1;
        let end: usize = if code_len - start < n {
            code_len
        } else {
            start + n
        };
        let bytes = copy_range(self.code.as_slice(), start, end);
        let value = Word::from_be_bytes(bytes.as_slice());
        if self.stack.len() + 1 > 1024 {
            return Err(EvmError::StackOverflow);
        }
        if self.gas < 3 {
            self.gas = self.gas - 3;
            return Err(EvmError::OutOfGas);
        }
        self.gas = self.gas - 3;
        self.stack.push(value);
        self.pc = end;
        Ok(())
    }

    fn step_dup(&mut self, op: u8) -> (r: Result<(), EvmError>)
        requires
            old(self).wf(),
            old(self).gas >= 0,
            old(self).pc < old(self).code@.len(),
            is_dup_op(op),
        ensures
            final(self).wf(),
            agrees(dup_spec(old(self)@, op), final(self)@, r),
    {
        let n: usize = (op - DUP1) as usize + 1;
        let code_len = self.code.len();
        if self.stack.len() < n {
            return Err(EvmError::StackUnderflow);
        }
        let value = self.peek(n - 1);
        if self.stack.len() + 1 > 1024 {
            return Err(EvmError::StackOverflow);
        }
        if self.gas < 3 {
            self.gas = self.gas - 3;
            return Err(EvmError::OutOfGas);
        }
        self.gas = self.gas - 3;
        self.stack.push(value);
        self.pc = self.pc + 1;
        Ok(())
    }

    fn step_swap(&mut self, op: u8) -> (r: Result<(), EvmError>)
        requires
            old(self).wf(),
            old(self).gas >= 0,
            old(self).pc < old(self).code@.len(),
            is_swap_op(op),
        ensures
            final(self).wf(),
            agrees(swap_spec(old(self)@, op), final(self)@, r),
    {
        let n: usize = (op - SWAP1) as usize + 1;
        let len = self.stack.len();
        let code_len = self.code.len();
        if len < n + 1 {
            return Err(EvmError::StackUnderflow);
        }
        if self.gas < 3 {
            self.gas = self.gas - 3;
            return Err(EvmError::OutOfGas);
        }
        let upper = self.peek(0);
        let lower = self.peek(n);
        self.gas = self.gas - 3;
        self.stack[len - 1] = lower;
        self.stack[len - 1 - n] = upper;
        self.pc = self.pc + 1;
        Ok(())
    }

    /// Whether `dest` is a valid jump target, and `dest` as a position.
    fn jump_target(&self, dest: &Word) -> (r: Option<usize>)
        requires
            self.wf(),
        ensures
            r is Some <==> crate::model::valid_jump(self.code@, *dest),
            r is Some ==> r->0 as nat == dest.value() && r->0 < self.code@.len(),
    {
        broadcast use vstd::std_specs::hash::group_hash_axioms;

        match dest.to_usize() {
            Some(d) => if self.jumpdests.contains(&d) {
                Some(d)
            } else {
                None
            },
            None => None,
        }
    }

    fn step_jump(&mut self) -> (r: Result<(), EvmError>)
        requires
            old(self).wf(),
            old(self).gas >= 0,
            old(self).pc < old(self).code@.len(),
        ensures
            final(self).wf(),
            agrees(jump_spec(old(self)@), final(self)@, r),
    {
        let len = self.stack.len();
        if len < 1 {
            return Err(EvmError::StackUnderflow);
        }
        let dest = self.peek(0);
        match self.jump_target(&dest) {
            None => Err(EvmError::InvalidJump(dest.low_usize())),
            Some(d) => {
                if self.gas < 8 {
                    self.gas = self.gas - 8;
                    return Err(EvmError::OutOfGas);
                }
                self.gas = self.gas - 8;
                self.stack.truncate(len - 1);
                self.pc = d;
                Ok(())
            },
        }
    }

    fn step_jumpi(&mut self) -> (r: Result<(), EvmError>)
        requires
            old(self).wf(),
            old(self).gas >= 0,
            old(self).pc < old(self).code@.len(),
        ensures
            final(self).wf(),
            agrees(jumpi_spec(old(self)@), final(self)@, r),
    {
        let len = self.stack.len();
        let code_len = self.code.len();
        if len < 2 {
            return Err(EvmError::StackUnderflow);
        }
        let dest = self.peek(0);
        let cond = self.peek(1);
        let next: usize = if cond.is_zero() {
            self.pc + 1
        } else {
            match self.jump_target(&dest) {
                None => {
                    return Err(EvmError::InvalidJump(dest.low_usize()));
                },
                Some(d) => d,
            }
        };
        if self.gas < 10 {
            self.gas = self.gas - 10;
            return Err(EvmError::OutOfGas);
        }
        self.gas = self.gas - 10;
        self.stack.truncate(len - 2);
        self.pc = next;
        Ok(())
    }

    fn step_jumpdest(&mut self) -> (r: Result<(), EvmError>)
        requires
            old(self).wf(),
            old(self).gas >= 0,
            old(self).pc < old(self).code@.len(),
        ensures
            final(self).wf(),
            agrees(jumpdest_spec(old(self)@), final(self)@, r),
    {
        let code_len = self.code.len();
        if self.gas < 1 {
            self.gas = self.gas - 1;
            return Err(EvmError::OutOfGas);
        }
        self.gas = self.gas - 1;
        self.pc = self.pc + 1;
        Ok(())
    }

    fn step_stop(&mut self) -> (r: Result<(), EvmError>)
        requires
            old(self).wf(),
            old(self).gas >= 0,
            old(self).pc < old(self).code@.len(),
        ensures
            final(self).wf(),
            agrees(stop_spec(old(self)@), final(self)@, r),
    {
        self.halted = Some(Halt::Stop);
        self.return_data = Vec::new();
        self.pc = self.code.len();
        Ok(())
    }

    /// Offset and size of a memory access with the gas that growing the
    /// memory to cover it costs, where such a memory can be held.
    fn memory_access(&self, offset: &Word, size: &Word) -> (r: Option<(usize, usize, i128)>)
        ensures
            r is Some <==> crate::memory::mem_fits(crate::memory::region_end(*offset, *size)),
            r matches Some(t) ==> t.0 as nat == offset.value() && t.1 as nat == size.value() && t.2
                == crate::model::grow_cost(self@, crate::memory::region_end(*offset, *size)) && 0
                <= t.2 <= 0x4000_0000_0000_0000_0000_0000_0000,
    {
        match mem_region(offset, size) {
            Some((off, sz)) => {
                let cost = expansion_cost(self.memory.len(), off + sz);
                Some((off, sz, cost as i128))
            },
            None => None,
        }
    }

    fn step_mload(&mut self) -> (r: Result<(), EvmError>)
        requires
            old(self).wf(),
            old(self).gas >= 0,
            old(self).pc < old(self).code@.len(),
        ensures
            final(self).wf(),
            agrees(mload_op_spec(old(self)@), final(self)@, r),
    {
        let len = self.stack.len();
        let code_len = self.code.len();
        if len < 1 {
            return Err(EvmError::StackUnderflow);
        }
        let offset = self.peek(0);
        match self.memory_access(&offset, &Word::from_u64(32)) {
            None => Err(EvmError::MemoryAccess),
            Some((off, _, grow)) => {
                let cost: i128 = 3 + grow;
                if self.gas < cost {
                    self.gas = self.gas - cost;
                    return Err(EvmError::OutOfGas);
                }
                self.gas = self.gas - cost;
                expand_memory(&mut self.memory, off + 32);
                let value = load_word(&self.memory, off);
                self.stack.truncate(len - 1);
                self.stack.push(value);
                self.pc = self.pc + 1;
                Ok(())
            },
        }
    }

    fn step_mstore(&mut self) -> (r: Result<(), EvmError>)
        requires
            old(self).wf(),
            old(self).gas >= 0,
            old(self).pc < old(self).code@.len(),
        ensures
            final(self).wf(),
            agrees(mstore_op_spec(old(self)@), final(self)@, r),
    {
        let len = self.stack.len();
        let code_len = self.code.len();
        if len < 2 {
            return Err(EvmError::StackUnderflow);
        }
        let offset = self.peek(0);
        let value = self.peek(1);
        match self.memory_access(&offset, &Word::from_u64(32)) {
            None => Err(EvmError::MemoryAccess),
            Some((off, _, grow)) => {
                let cost: i128 = 3 + grow;
                if self.gas < cost {
                    self.gas = self.gas - cost;
                    return Err(EvmError::OutOfGas);
                }
                self.gas = self.gas - cost;
                expand_memory(&mut self.memory, off + 32);
                store_word(&mut self.memory, off, &value);
                self.stack.truncate(len - 2);
                self.pc = self.pc + 1;
                Ok(())
            },
        }
    }

    fn step_mstore8(&mut self) -> (r: Result<(), EvmError>)
        requires
            old(self).wf(),
            old(self).gas >= 0,
            old(self).pc < old(self).code@.len(),
        ensures
            final(self).wf(),
            agrees(mstore8_op_spec(old(self)@), final(self)@, r),
    {
        let len = self.stack.len();
        let code_len = self.code.len();
        if len < 2 {
            return Err(EvmError::StackUnderflow);
        }
        let offset = self.peek(0);
        let value = self.peek(1);
        match self.memory_access(&offset, &Word::from_u64(1)) {
            None => Err(EvmError::MemoryAccess),
            Some((off, _, grow)) => {
                let cost: i128 = 3 + grow;
                if self.gas < cost {
                    self.gas = self.gas - cost;
                    return Err(EvmError::OutOfGas);
                }
                self.gas = self.gas - cost;
                expand_memory(&mut self.memory, off + 1);
                let mut byte: Vec<u8> = Vec::new();
                byte.push(value.low_byte());
                assert(byte@ =~= seq![value.low_byte_spec()]);
                write_bytes(&mut self.memory, off, byte.as_slice());
                self.stack.truncate(len - 2);
                self.pc = self.pc + 1;
                Ok(())
            },
        }
    }

    #[verifier::rlimit(50)]
    fn step_sha3(&mut self) -> (r: Result<(), EvmError>)
        requires
            old(self).wf(),
            old(self).gas >= 0,
            old(self).pc < old(self).code@.len(),
        ensures
            final(self).wf(),
            agrees(sha3_spec(old(self)@), final(self)@, r),
    {
        let len = self.stack.len();
        let code_len = self.code.len();
        if len < 2 {
            return Err(EvmError::StackUnderflow);
        }
        let offset = self.peek(0);
        let size = self.peek(1);
        match self.memory_access(&offset, &size) {
            None => Err(EvmError::MemoryAccess),
            Some((off, sz, grow)) => {
                let cost: i128 = 30 + 6 * (words(sz) as i128) + grow;
                if self.gas < cost {
                    self.gas = self.gas - cost;
                    return Err(EvmError::OutOfGas);
                }
                self.gas = self.gas - cost;
                expand_memory(&mut self.memory, off + sz);
                let data = copy_range(self.memory.as_slice(), off, off + sz);
                let value = keccak_word(data.as_slice());
                self.stack.truncate(len - 2);
                self.stack.push(value);
                self.pc = self.pc + 1;
                Ok(())
            },
        }
    }

    #[verifier::rlimit(50)]
    fn step_copy(&mut self, op: u8) -> (r: Result<(), EvmError>)
        requires
            old(self).wf(),
            old(self).gas >= 0,
            old(self).pc < old(self).code@.len(),
            is_copy_op(op),
        ensures
            final(self).wf(),
            agrees(copy_spec(old(self)@, op), final(self)@, r),
    {
        let len = self.stack.len();
        let code_len = self.code.len();
        let k: usize = if op == EXTCODECOPY {
            4
        } else {
            3
        };
        if len < k {
            return Err(EvmError::StackUnderflow);
        }
        let mem_off = self.peek(k - 3);
        let src_off = self.peek(k - 2);
        let size = self.peek(k - 1);
        match self.memory_access(&mem_off, &size) {
            None => Err(EvmError::MemoryAccess),
            Some((off, sz, grow)) => {
                let per_word: i128 = words(sz) as i128;
                let cost: i128 = grow + if op == EXTCODECOPY {
                    100 + 3 * per_word
                } else if op == RETURNDATACOPY {
                    3 + per_word
                } else {
                    3 + 3 * per_word
                };
                if self.gas < cost {
                    self.gas = self.gas - cost;
                    return Err(EvmError::OutOfGas);
                }
                let data = if op == CALLDATACOPY {
                    read_source(self.calldata.as_slice(), &src_off, sz)
                } else if op == CODECOPY {
                    read_source(self.code.as_slice(), &src_off, sz)
                } else if op == RETURNDATACOPY {
                    read_source(self.last_return_data.as_slice(), &src_off, sz)
                } else {
                    let addr = Address::from_word(&self.peek(0));
                    let code = self.code_at(&addr);
                    read_source(code.as_slice(), &src_off, sz)
                };
                self.gas = self.gas - cost;
                expand_memory(&mut self.memory, off + sz);
                write_bytes(&mut self.memory, off, data.as_slice());
                self.stack.truncate(len - k);
                self.pc = self.pc + 1;
                Ok(())
            },
        }
    }

    #[verifier::rlimit(50)]
    fn step_return(&mut self, op: u8) -> (r: Result<(), EvmError>)
        requires
            old(self).wf(),
            old(self).gas >= 0,
            old(self).pc < old(self).code@.len(),
            op == RETURN || op == REVERT,
        ensures
            final(self).wf(),
            agrees(return_spec(old(self)@, op), final(self)@, r),
    {
        let len = self.stack.len();
        let code_len = self.code.len();
        if len < 2 {
            return Err(EvmError::StackUnderflow);
        }
        let offset = self.peek(0);
        let size = self.peek(1);
        match self.memory_access(&offset, &size) {
            None => Err(EvmError::MemoryAccess),
            Some((off, sz, grow)) => {
                if self.gas < grow {
                    self.gas = self.gas - grow;
                    return Err(EvmError::OutOfGas);
                }
                self.gas = self.gas - grow;
                expand_memory(&mut self.memory, off + sz);
                self.return_data = copy_range(self.memory.as_slice(), off, off + sz);
                self.halted = Some(
                    if op == RETURN {
                        Halt::Return
                    } else {
                        Halt::Revert
                    },
                );
                self.stack.truncate(len - 2);
                self.pc = code_len;
                Ok(())
            },
        }
    }

    #[verifier::rlimit(50)]
    fn step_log(&mut self, op: u8) -> (r: Result<(), EvmError>)
        requires
            old(self).wf(),
            old(self).gas >= 0,
            old(self).pc < old(self).code@.len(),
            is_log_op(op),
        ensures
            final(self).wf(),
            agrees(log_spec(old(self)@, op), final(self)@, r),
    {
        let len = self.stack.len();
        let code_len = self.code.len();
        let n: usize = (op - LOG0) as usize;
        if self.is_static {
            return Err(EvmError::StaticViolation);
        }
        if len < 2 + n {
            return Err(EvmError::StackUnderflow);
        }
        let offset = self.peek(0);
        let size = self.peek(1);
        match self.memory_access(&offset, &size) {
            None => Err(EvmError::MemoryAccess),
            Some((off, sz, grow)) => {
                let cost: i128 = 8 + (words(sz) as i128) + grow;
                if self.gas < cost {
                    self.gas = self.gas - cost;
                    return Err(EvmError::OutOfGas);
                }
                let mut topics: Vec<Word> = Vec::new();
                let mut i: usize = 0;
                while i < n
                    invariant
                        i <= n <= 4,
                        2 + n <= self.stack@.len(),
                        topics@.len() == i,
                        forall|j: int|
                            0 <= j < i ==> topics@[j] == crate::model::top(self@, 2 + j),
                    decreases n - i,
                {
                    topics.push(self.peek(2 + i));
                    i = i + 1;
                }
                assert(topics@ =~= Seq::new(
                    n as nat,
                    |j: int| crate::model::top(old(self)@, 2 + j),
                ));
                let ghost before = log_views(self.logs@);
                self.gas = self.gas - cost;
                expand_memory(&mut self.memory, off + sz);
                let data = copy_range(self.memory.as_slice(), off, off + sz);
                let entry = LogEntry { topics, data };
                let ghost entry_view = entry@;
                self.logs.push(entry);
                assert(log_views(self.logs@) =~= before.push(entry_view));
                self.stack.truncate(len - (2 + n));
                self.pc = self.pc + 1;
                Ok(())
            },
        }
    }

    #[verifier::rlimit(50)]
    fn step_sstore(&mut self) -> (r: Result<(), EvmError>)
        requires
            old(self).wf(),
            old(self).gas >= 0,
            old(self).pc < old(self).code@.len(),
        ensures
            final(self).wf(),
            agrees(sstore_spec(old(self)@), final(self)@, r),
    {
        let len = self.stack.len();
        let code_len = self.code.len();
        if self.is_static {
            return Err(EvmError::StaticViolation);
        }
        if len < 2 {
            return Err(EvmError::StackUnderflow);
        }
        let key = self.peek(0);
        let val = self.peek(1);
        let current = self.sload(&key);
        let clears: bool = !current.is_zero() && val.is_zero();
        let cost: i128 = if current.is_zero() && !val.is_zero() {
            20000
        } else if clears {
            5000
        } else {
            2900
        };
        if self.gas < cost {
            self.gas = self.gas - cost;
            return Err(EvmError::OutOfGas);
        }
        self.gas = self.gas - cost;
        if clears {
            self.refund = if self.refund <= i128::MAX - 15000 {
                self.refund + 15000
            } else {
                i128::MAX
            };
        }
        store_in(&mut self.world, &self.address, &mut self.storage, key, val);
        self.stack.truncate(len - 2);
        self.pc = self.pc + 1;
        Ok(())
    }

    /// Executes the instruction `op`, which runs no child frame.
    #[verifier::rlimit(50)]
    fn step_plain(&mut self, op: u8) -> (r: Result<(), EvmError>)
        requires
            old(self).wf(),
            old(self).gas >= 0,
            old(self).pc < old(self).code@.len(),
            !crate::model::is_call_op(op),
            !crate::model::is_create_op(op),
        ensures
            final(self).wf(),
            agrees(plain_step_spec(old(self)@, op), final(self)@, r),
    {
        reveal(plain_step_spec);
        if op == STOP {
            self.step_stop()
        } else if op == ADD || op == MUL || op == SUB || op == DIV || op == LT || op == GT || op
            == EQ || op == AND || op == OR || op == XOR {
            self.step_binary(op)
        } else if op == ISZERO || op == NOT {
            self.step_unary(op)
        } else if op == ADDRESS || op == ORIGIN || op == CALLER || op == CALLVALUE || op
            == GASPRICE || op == BLOCKHASH || op == COINBASE || op == TIMESTAMP || op == NUMBER
            || op == DIFFICULTY_PRAND || op == GASLIMIT_OP || op == CHAINID || op == SELFBALANCE
            || op == BASEFEE || op == RETURNDATASIZE || op == CALLDATASIZE || op == CODESIZE || op
            == PC || op == MSIZE || op == GAS || op == PUSH0 {
            self.step_context(op)
        } else if op == BALANCE || op == EXTCODESIZE || op == EXTCODEHASH || op == SLOAD || op
            == CALLDATALOAD {
            self.step_lookup(op)
        } else if op == SHA3 {
            self.step_sha3()
        } else if op == CALLDATACOPY || op == CODECOPY || op == RETURNDATACOPY || op
            == EXTCODECOPY {
            self.step_copy(op)
        } else if op == POP {
            self.step_pop()
        } else if op == MLOAD {
            self.step_mload()
        } else if op == MSTORE {
            self.step_mstore()
        } else if op == MSTORE8 {
            self.step_mstore8()
        } else if op == SSTORE {
            self.step_sstore()
        } else if op == JUMP {
            self.step_jump()
        } else if op == JUMPI {
            self.step_jumpi()
        } else if op == JUMPDEST {
            self.step_jumpdest()
        } else if op >= PUSH1 && op <= PUSH32 {
            self.step_push(op)
        } else if op >= DUP1 && op <= DUP16 {
            self.step_dup(op)
        } else if op >= SWAP1 && op <= SWAP16 {
            self.step_swap(op)
        } else if op == RETURN || op == REVERT {
            self.step_return(op)
        } else if op >= LOG0 && op <= LOG4 {
            self.step_log(op)
        } else {
            Err(EvmError::InvalidOpcode(op, self.pc))
        }
    }
}

/// Runs the code built into the machine for `addr`, where there is any: the
/// identity precompile at address 4 returns its input.
pub fn precompile(addr: &Address, input: &[u8]) -> (r: Option<Vec<u8>>)
    ensures
        match precompile_spec(*addr, input@) {
            Some(out) => r is Some && r->0@ == out,
            None => r is None,
        },
{
    if *addr == Address::from_low_u64_be(4) {
        let out = copy_range(input, 0, input.len());
        assert(out@ =~= input@);
        Some(out)
    } else {
        None
    }
}

/// What a call has settled once its checks have passed.
struct CallSetup {
    to: Address,
    value: Word,
    input: Vec<u8>,
    out_off: usize,
    out_size: usize,
    child_gas: i128,
}

/// What a creation has settled once its checks have passed.
struct CreateSetup {
    value: Word,
    salt: Word,
    init: Vec<u8>,
    child_gas: i128,
}

/// How a child frame ended, as its parent takes it.
enum ChildEnd {
    /// The parent keeps its world and its logs.
    Kept { success: bool, ret: Vec<u8> },
    /// The child succeeded; its world and logs are taken over.
    Committed { ret: Vec<u8>, world: Option<World>, logs: Vec<LogEntry> },
}

impl ChildEnd {
    spec fn result(self, parent: Option<Map<Address, AccountView>>) -> ChildResult {
        match self {
            ChildEnd::Kept { success, ret } => ChildResult {
                success: success,
                ret: ret@,
                world: parent,
                logs: Seq::empty(),
            },
            ChildEnd::Committed { ret, world, logs } => ChildResult {
                success: true,
                ret: ret@,
                world: world_view(world),
                logs: log_views(logs@),
            },
        }
    }
}

/// How a child that has run ended.
fn end_of_child(child: Evm, res: Result<(), EvmError>) -> (end: ChildEnd)
    ensures
        forall|parent: Option<Map<Address, AccountView>>|
            same_result(
                #[trigger] end.result(parent),
                child_result(
                    Outcome {
                        state: child@,
                        error: match res {
                            Ok(_) => None,
                            Err(e) => Some(e),
                        },
                    },
                ),
            ),
{
    match res {
        Err(_) => ChildEnd::Kept { success: false, ret: Vec::new() },
        Ok(_) => {
            let Evm { halted, return_data, world, logs, .. } = child;
            match halted {
                Some(Halt::Revert) => ChildEnd::Kept { success: false, ret: return_data },
                _ => ChildEnd::Committed { ret: return_data, world, logs },
            }
        },
    }
}

impl Evm {
    /// The checks of a call. Where they pass, the call is paid for and the
    /// memory covers its input and its output.
    #[verifier::rlimit(50)]
    fn call_checks(&mut self, op: u8) -> (r: Result<CallSetup, EvmError>)
        requires
            old(self).wf(),
            old(self).gas >= 0,
            old(self).pc < old(self).code@.len(),
            crate::model::is_call_op(op),
        ensures
            final(self).wf(),
            match r {
                Err(e) => call_plan(old(self)@, op) is Fail && agrees(
                    call_plan(old(self)@, op)->Fail_0,
                    final(self)@,
                    Err::<(), EvmError>(e),
                ),
                Ok(setup) => {
                    let s = old(self)@;
                    let a = call_args(s, op);
                    &&& !(call_plan(s, op) is Fail)
                    &&& s.stack.len() >= call_arity(op)
                    &&& s.gas >= call_total_cost(s, op)
                    &&& final(self)@ == EvmState {
                        gas: s.gas - call_total_cost(s, op),
                        memory: call_memory(s, a),
                        ..s
                    }
                    &&& setup.to == a.to
                    &&& setup.value == a.value
                    &&& setup.input@ == call_input(s, a)
                    &&& setup.out_off as nat == a.out_off.value()
                    &&& setup.out_size as nat == a.out_size.value()
                    &&& setup.child_gas == call_child_gas(s, op)
                    &&& setup.out_off + setup.out_size <= final(self).memory@.len()
                },
            },
    {
        let len = self.stack.len();
        let with_value: bool = op == CALL || op == CALLCODE;
        let arity: usize = if with_value {
            7
        } else {
            6
        };
        if len < arity {
            return Err(EvmError::StackUnderflow);
        }
        let gas_req = self.peek(0);
        let to = Address::from_word(&self.peek(1));
        let value = if with_value {
            self.peek(2)
        } else {
            Word::zero()
        };
        let in_off = self.peek(arity - 4);
        let in_size = self.peek(arity - 3);
        let out_off = self.peek(arity - 2);
        let out_size = self.peek(arity - 1);
        if op == CALL && self.is_static && !value.is_zero() {
            return Err(EvmError::StaticViolation);
        }
        let ghost s = self@;
        let ghost a = call_args(s, op);
        match (mem_region(&in_off, &in_size), mem_region(&out_off, &out_size)) {
            (Some((io, isz)), Some((oo, osz))) => {
                let mem_len = self.memory.len();
                let grow_in = expansion_cost(mem_len, io + isz);
                let grow_out = expansion_cost(expanded_len(mem_len, io + isz), oo + osz);
                let mem_cost: i128 = (grow_in + grow_out) as i128;
                let has_value: bool = with_value && !value.is_zero();
                let base: i128 = if has_value {
                    9700
                } else {
                    700
                };
                let total: i128 = mem_cost + base + 40;
                proof {
                    lemma_call_mem_cost_nonneg(s, a);
                    assert(mem_cost == crate::model::call_mem_cost(s, a));
                    assert(total == call_total_cost(s, op));
                }
                if self.gas < total {
                    self.gas = self.gas - total;
                    return Err(EvmError::OutOfGas);
                }
                let forwarded = call_gas(self.gas - mem_cost, gas_req.saturating_u128(), has_value);
                let child_gas: i128 = (forwarded.0 as i128) + if has_value {
                    2300
                } else {
                    0
                };
                self.gas = self.gas - total;
                expand_memory(&mut self.memory, io + isz);
                expand_memory(&mut self.memory, oo + osz);
                let input = copy_range(self.memory.as_slice(), io, io + isz);
                Ok(CallSetup { to, value, input, out_off: oo, out_size: osz, child_gas })
            },
            _ => Err(EvmError::MemoryAccess),
        }
    }

    /// Runs the child of a call whose checks have passed, where it has one.
    #[verifier::rlimit(50)]
    fn run_call_child(&self, op: u8, setup: CallSetup, Ghost(s): Ghost<EvmState>) -> (end:
        ChildEnd)
        requires
            crate::model::is_call_op(op),
            s.gas >= 0,
            s.gas >= call_total_cost(s, op),
            !(call_plan(s, op) is Fail),
            self@.world == s.world,
            self.address == s.address,
            self.caller == s.caller,
            self.origin == s.origin,
            self.callvalue == s.callvalue,
            self.gas_price == s.gas_price,
            self.block == s.block,
            self.is_static == s.is_static,
            setup.to == call_args(s, op).to,
            setup.value == call_args(s, op).value,
            setup.input@ == call_input(s, call_args(s, op)),
            setup.child_gas == call_child_gas(s, op),
        ensures
            match call_plan(s, op) {
                Spawn::Fail(_) => false,
                Spawn::Done(r) => same_result(end.result(s.world), r),
                Spawn::Run(child) => same_result(
                    end.result(s.world),
                    child_result(run_spec(child)),
                ),
            },
        decreases s.gas, 2 * s.stack.len(), 0int,
    {
        match precompile(&setup.to, setup.input.as_slice()) {
            Some(ret) => {
                return ChildEnd::Kept { success: true, ret };
            },
            None => {},
        }
        match &self.world {
            None => ChildEnd::Kept { success: true, ret: Vec::new() },
            Some(w) => {
                let me = address_or_zero(&self.address);
                let with_value: bool = op == CALL || op == CALLCODE;
                if with_value && w.balance_of(&me).lt(&setup.value) {
                    return ChildEnd::Kept { success: false, ret: Vec::new() };
                }
                let mut child_world = w.clone();
                if op == CALL {
                    child_world.transfer(&me, &setup.to, &setup.value);
                }
                let code = child_world.code_of(&setup.to);
                let cfg = if op == CALL {
                    EvmConfig {
                        gas_limit: setup.child_gas,
                        calldata: setup.input,
                        address: Some(setup.to),
                        caller: Some(me),
                        origin: self.origin,
                        value: setup.value,
                        gas_price: self.gas_price,
                        block: self.block,
                        world: Some(child_world),
                    }
                } else if op == CALLCODE {
                    EvmConfig {
                        gas_limit: setup.child_gas,
                        calldata: setup.input,
                        address: Some(me),
                        caller: Some(me),
                        origin: self.origin,
                        value: setup.value,
                        gas_price: self.gas_price,
                        block: self.block,
                        world: Some(child_world),
                    }
                } else if op == DELEGATECALL {
                    EvmConfig {
                        gas_limit: setup.child_gas,
                        calldata: setup.input,
                        address: self.address,
                        caller: self.caller,
                        origin: self.origin,
                        value: self.callvalue,
                        gas_price: self.gas_price,
                        block: self.block,
                        world: Some(child_world),
                    }
                } else {
                    EvmConfig {
                        gas_limit: setup.child_gas,
                        calldata: setup.input,
                        address: Some(setup.to),
                        caller: Some(me),
                        origin: self.origin,
                        value: Word::zero(),
                        gas_price: self.gas_price,
                        block: self.block,
                        world: Some(child_world),
                    }
                };
                let mut child = Evm::new(code, cfg);
                child.is_static = self.is_static || op == STATICCALL;
                proof {
                    lemma_call_child_gas(s, op);
                    assert(call_plan(s, op) == Spawn::Run(child@));
                }
                let res = child.run();
                end_of_child(child, res)
            },
        }
    }

    /// Takes over what the child of a call left.
    #[verifier::rlimit(50)]
    fn finish_call_exec(&mut self, pops: usize, out_off: usize, out_size: usize, end: ChildEnd)
        requires
            old(self).wf(),
            old(self).pc < old(self).code@.len(),
            1 <= pops <= old(self).stack@.len(),
            out_off + out_size <= old(self).memory@.len(),
        ensures
            final(self).wf(),
            final(self)@ == ({
                let s = old(self)@;
                let r = end.result(s.world);
                EvmState {
                    memory: crate::memory::write_at(
                        s.memory,
                        out_off as int,
                        read_padded_spec(r.ret, 0, out_size as nat),
                    ),
                    last_return_data: r.ret,
                    stack: crate::model::popped(s, pops as int).push(
                        Word::from_bool_spec(r.success),
                    ),
                    world: if r.success {
                        r.world
                    } else {
                        s.world
                    },
                    logs: if r.success {
                        s.logs + r.logs
                    } else {
                        s.logs
                    },
                    pc: s.pc + 1,
                    ..s
                }
            }),
    {
        let len = self.stack.len();
        let code_len = self.code.len();
        let ghost before = log_views(self.logs@);
        let (success, ret) = match end {
            ChildEnd::Kept { success, ret } => {
                assert(before + Seq::<crate::types::LogView>::empty() =~= before);
                (success, ret)
            },
            ChildEnd::Committed { ret, world, logs } => {
                let mut logs = logs;
                let ghost added = log_views(logs@);
                self.world = world;
                self.logs.append(&mut logs);
                assert(log_views(self.logs@) =~= before + added);
                (true, ret)
            },
        };
        let data = read_padded(ret.as_slice(), Some(0), out_size);
        write_bytes(&mut self.memory, out_off, data.as_slice());
        self.last_return_data = ret;
        self.stack.truncate(len - pops);
        self.stack.push(Word::from_bool(success));
        self.pc = self.pc + 1;
    }

    #[verifier::rlimit(50)]
    fn step_call(&mut self, op: u8) -> (r: Result<(), EvmError>)
        requires
            old(self).wf(),
            old(self).gas >= 0,
            old(self).pc < old(self).code@.len(),
            op == old(self).code@[old(self).pc as int],
            crate::model::is_call_op(op),
        ensures
            final(self).wf(),
            agrees(step_spec(old(self)@), final(self)@, r),
        decreases old(self).gas, 2 * old(self).stack@.len(), 1int,
    {
        reveal(step_spec);
        let ghost s = self@;
        match self.call_checks(op) {
            Err(e) => Err(e),
            Ok(setup) => {
                let out_off = setup.out_off;
                let out_size = setup.out_size;
                let arity: usize = if op == CALL || op == CALLCODE {
                    7
                } else {
                    6
                };
                let end = self.run_call_child(op, setup, Ghost(s));
                let ghost mid = self@;
                self.finish_call_exec(arity, out_off, out_size, end);
                proof {
                    let r = end.result(s.world);
                    assert(self@ == finish_call(s, op, r).state);
                    match call_plan(s, op) {
                        Spawn::Fail(_) => {},
                        Spawn::Done(r2) => {
                            lemma_same_result(s, op, r, r2);
                        },
                        Spawn::Run(child) => {
                            lemma_same_result(s, op, r, child_result(run_spec(child)));
                        },
                    }
                }
                Ok(())
            },
        }
    }
}

impl Evm {
    /// The checks of a creation. Where they pass, the creation is paid for
    /// and the memory covers the init code.
    #[verifier::rlimit(50)]
    fn create_checks(&mut self, op: u8) -> (r: Result<CreateSetup, EvmError>)
        requires
            old(self).wf(),
            old(self).gas >= 0,
            old(self).pc < old(self).code@.len(),
            crate::model::is_create_op(op),
        ensures
            final(self).wf(),
            match r {
                Err(e) => create_plan(old(self)@, op) is Fail && agrees(
                    create_plan(old(self)@, op)->Fail_0,
                    final(self)@,
                    Err::<(), EvmError>(e),
                ),
                Ok(setup) => {
                    let s = old(self)@;
                    let end = crate::memory::region_end(
                        crate::model::top(s, 1),
                        crate::model::top(s, 2),
                    );
                    &&& !(create_plan(s, op) is Fail)
                    &&& s.stack.len() >= create_arity(op)
                    &&& s.gas >= create_total_cost(s)
                    &&& final(self)@ == EvmState {
                        gas: s.gas - create_total_cost(s),
                        memory: crate::memory::expanded(s.memory, end),
                        ..s
                    }
                    &&& setup.value == crate::model::top(s, 0)
                    &&& op == CREATE2 ==> setup.salt == crate::model::top(s, 3)
                    &&& setup.init@ == create_init(s)
                    &&& setup.child_gas == s.gas - crate::model::grow_cost(s, end)
                    &&& 0 <= setup.child_gas
                },
            },
    {
        let len = self.stack.len();
        let arity: usize = if op == CREATE2 {
            4
        } else {
            3
        };
        if self.is_static {
            return Err(EvmError::StaticViolation);
        }
        if len < arity {
            return Err(EvmError::StackUnderflow);
        }
        let value = self.peek(0);
        let offset = self.peek(1);
        let size = self.peek(2);
        let salt = if op == CREATE2 {
            self.peek(3)
        } else {
            Word::zero()
        };
        match self.memory_access(&offset, &size) {
            None => Err(EvmError::MemoryAccess),
            Some((off, sz, grow)) => {
                let total: i128 = grow + 32000;
                if self.gas < total {
                    self.gas = self.gas - total;
                    return Err(EvmError::OutOfGas);
                }
                let child_gas: i128 = self.gas - grow;
                self.gas = self.gas - total;
                expand_memory(&mut self.memory, off + sz);
                let init = copy_range(self.memory.as_slice(), off, off + sz);
                Ok(CreateSetup { value, salt, init, child_gas })
            },
        }
    }

    /// Runs the init code of a creation whose checks have passed, where the
    /// world and the balance allow it. The address that comes with the
    /// result is that of the new contract.
    #[verifier::rlimit(50)]
    fn run_create_child(&self, op: u8, setup: CreateSetup, Ghost(s): Ghost<EvmState>) -> (out: (
        ChildEnd,
        Address,
    ))
        requires
            crate::model::is_create_op(op),
            s.gas >= 0,
            s.gas >= create_total_cost(s),
            s.stack.len() >= create_arity(op),
            !(create_plan(s, op) is Fail),
            self@.world == s.world,
            self.address == s.address,
            self.origin == s.origin,
            self.gas_price == s.gas_price,
            self.block == s.block,
            setup.value == crate::model::top(s, 0),
            op == CREATE2 ==> setup.salt == crate::model::top(s, 3),
            setup.init@ == create_init(s),
            setup.child_gas == s.gas - crate::model::grow_cost(
                s,
                crate::memory::region_end(crate::model::top(s, 1), crate::model::top(s, 2)),
            ),
            0 <= setup.child_gas,
        ensures
            out.0.result(s.world).success ==> out.1 == created_address(s, op),
            match create_plan(s, op) {
                Spawn::Fail(_) => false,
                Spawn::Done(r) => same_result(out.0.result(s.world), r),
                Spawn::Run(child) => same_result(
                    out.0.result(s.world),
                    child_result(run_spec(child)),
                ),
            },
        decreases s.gas, 2 * s.stack.len(), 0int,
    {
        match &self.world {
            None => (ChildEnd::Kept { success: false, ret: Vec::new() }, Address::zero()),
            Some(w) => {
                let me = address_or_zero(&self.address);
                if w.balance_of(&me).lt(&setup.value) {
                    return (ChildEnd::Kept { success: false, ret: Vec::new() }, Address::zero());
                }
                let mut child_world = w.clone();
                let created = if op == CREATE {
                    let nonce = w.nonce_of(&me);
                    child_world.bump_nonce(&me);
                    create_address(&me, nonce)
                } else {
                    create2_address(&me, &setup.salt, setup.init.as_slice())
                };
                child_world.transfer(&me, &created, &setup.value);
                let cfg = EvmConfig {
                    gas_limit: setup.child_gas,
                    calldata: Vec::new(),
                    address: Some(created),
                    caller: Some(me),
                    origin: self.origin,
                    value: setup.value,
                    gas_price: self.gas_price,
                    block: self.block,
                    world: Some(child_world),
                };
                let mut child = Evm::new(setup.init, cfg);
                proof {
                    lemma_grow_cost_nonneg(
                        s.memory.len() as int,
                        crate::memory::region_end(crate::model::top(s, 1), crate::model::top(s, 2)),
                    );
                    assert(create_plan(s, op) == Spawn::Run(child@));
                }
                let res = child.run();
                (end_of_child(child, res), created)
            },
        }
    }

    /// Takes over what the child of a creation left.
    #[verifier::rlimit(50)]
    fn finish_create_exec(&mut self, pops: usize, created: Address, end: ChildEnd)
        requires
            old(self).wf(),
            old(self).pc < old(self).code@.len(),
            1 <= pops <= old(self).stack@.len(),
        ensures
            final(self).wf(),
            final(self)@ == ({
                let s = old(self)@;
                let r = end.result(s.world);
                EvmState {
                    stack: crate::model::popped(s, pops as int).push(
                        if r.success {
                            created.to_word_spec()
                        } else {
                            Word::zero_spec()
                        },
                    ),
                    world: if r.success {
                        match r.world {
                            Some(cw) => Some(crate::world::set_code_spec(cw, created, r.ret)),
                            None => s.world,
                        }
                    } else {
                        s.world
                    },
                    logs: if r.success {
                        s.logs + r.logs
                    } else {
                        s.logs
                    },
                    pc: s.pc + 1,
                    ..s
                }
            }),
    {
        let len = self.stack.len();
        let code_len = self.code.len();
        let ghost before = log_views(self.logs@);
        let pushed = match end {
            ChildEnd::Kept { success, ret } => {
                assert(before + Seq::<crate::types::LogView>::empty() =~= before);
                if success {
                    match &mut self.world {
                        Some(w) => {
                            w.set_code(&created, ret);
                        },
                        None => {},
                    }
                    created.to_word()
                } else {
                    Word::zero()
                }
            },
            ChildEnd::Committed { ret, world, logs } => {
                let mut logs = logs;
                let ghost added = log_views(logs@);
                match world {
                    Some(cw) => {
                        let mut cw = cw;
                        cw.set_code(&created, ret);
                        self.world = Some(cw);
                    },
                    None => {},
                }
                self.logs.append(&mut logs);
                assert(log_views(self.logs@) =~= before + added);
                created.to_word()
            },
        };
        self.stack.truncate(len - pops);
        self.stack.push(pushed);
        self.pc = self.pc + 1;
    }

    #[verifier::rlimit(50)]
    fn step_create(&mut self, op: u8) -> (r: Result<(), EvmError>)
        requires
            old(self).wf(),
            old(self).gas >= 0,
            old(self).pc < old(self).code@.len(),
            op == old(self).code@[old(self).pc as int],
            crate::model::is_create_op(op),
        ensures
            final(self).wf(),
            agrees(step_spec(old(self)@), final(self)@, r),
        decreases old(self).gas, 2 * old(self).stack@.len(), 1int,
    {
        reveal(step_spec);
        let ghost s = self@;
        match self.create_checks(op) {
            Err(e) => Err(e),
            Ok(setup) => {
                let arity: usize = if op == CREATE2 {
                    4
                } else {
                    3
                };
                let (end, created) = self.run_create_child(op, setup, Ghost(s));
                self.finish_create_exec(arity, created, end);
                proof {
                    let r = end.result(s.world);
                    assert(self@ == finish_create(s, op, r).state);
                    match create_plan(s, op) {
                        Spawn::Fail(_) => {},
                        Spawn::Done(r2) => {
                            lemma_same_result(s, op, r, r2);
                        },
                        Spawn::Run(child) => {
                            lemma_same_result(s, op, r, child_result(run_spec(child)));
                        },
                    }
                }
                Ok(())
            },
        }
    }

    /// Executes the instruction at the program counter.
    ///
    /// The frame that it leaves and the error that it gives are those of
    /// `step_spec`: a failing step leaves the frame as it was, but for the
    /// gas where it ran out.
    #[verifier::rlimit(50)]
    pub fn step(&mut self) -> (r: Result<(), EvmError>)
        requires
            old(self).wf(),
            old(self).pc < old(self).code@.len(),
        ensures
            final(self).wf(),
            agrees(step_spec(old(self)@), final(self)@, r),
        decreases old(self).gas, 2 * old(self).stack@.len(), 2int,
    {
        reveal(step_spec);
        if self.gas < 0 {
            return Err(EvmError::OutOfGas);
        }
        let op: u8 = self.code[self.pc];
        if op == CALL || op == CALLCODE || op == DELEGATECALL || op == STATICCALL {
            self.step_call(op)
        } else if op == CREATE || op == CREATE2 {
            self.step_create(op)
        } else {
            self.step_plain(op)
        }
    }

    /// Executes step after step until the frame halts, leaves its code or
    /// fails.
    #[verifier::rlimit(50)]
    pub fn run(&mut self) -> (r: Result<(), EvmError>)
        requires
            old(self).wf(),
        ensures
            final(self).wf(),
            final(self).stack@.len() <= 1024,
            agrees(run_spec(old(self)@), final(self)@, r),
        decreases old(self).gas, 2 * old(self).stack@.len() + 1, 0int,
    {
        let mut first: bool = true;
        while self.pc < self.code.len() && self.halted.is_none()
            invariant
                self.wf(),
                run_spec(self@) == run_spec(old(self)@),
                first ==> self@ == old(self)@,
                !first ==> 0 <= self.gas <= old(self).gas,
                !first && self.halted is None ==> self.gas < old(self).gas,
            decreases
                    if self.halted is None && self.gas >= 0 {
                        self.gas + 1
                    } else {
                        0
                    },
        {
            let ghost before = self@;
            let res = self.step();
            proof {
                assert(running(before));
                lemma_run_unfold(before);
                if res is Ok {
                    lemma_step_uses_gas(before);
                }
            }
            match res {
                Err(e) => {
                    return Err(e);
                },
                Ok(_) => {},
            }
            first = false;
        }
        Ok(())
    }
}

/// Writes `val` for `key`: into the storage of `address` in `world` where
/// both are there, into `local` otherwise.
fn store_in(
    world: &mut Option<World>,
    address: &Option<Address>,
    local: &mut Storage,
    key: Word,
    val: Word,
)
    ensures
        (*old(world)) is Some && (*address) is Some ==> world_view(*final(world)) == Some(
            crate::world::store_spec((*old(world))->0@, (*address)->0, key, val),
        ) && final(local)@ == old(local)@,
        !((*old(world)) is Some && (*address) is Some) ==> final(local)@ == old(local)@.insert(
            key,
            val,
        ) && *final(world) == *old(world),
{
    match address {
        Some(a) => match world {
            Some(w) => {
                w.store(a, key, val);
            },
            None => {
                local.insert(key, val);
            },
        },
        None => {
            local.insert(key, val);
        },
    }
}

/// Reads `len` bytes of `src` at `offset`, with zero for every position
/// past its end.
fn read_source(src: &[u8], offset: &Word, len: usize) -> (out: Vec<u8>)
    ensures
        out@ == read_padded_spec(src@, offset.value(), len as nat),
{
    let total = src.len();
    let out = read_padded(src, offset.to_usize(), len);
    proof {
        if !offset.fits_usize() {
            assert(zeros(len as nat) =~= read_padded_spec(src@, offset.value(), len as nat));
        }
    }
    out
}

} // verus!
