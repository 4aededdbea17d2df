//! Plain types shared by the machine and its model.

use crate::address::Address;
use crate::text::{append_digits, append_hex_byte, digits_spec, hex_byte_spec};
use crate::word::Word;
use vstd::prelude::*;
use vstd::string::*;

verus! {

/// Why a frame stopped executing.
#[derive(Debug, Clone, Copy, PartialEq, Eq, Structural)]
pub enum Halt {
    Stop,
    Return,
    Revert,
}

/// Why a step failed.
#[derive(Debug, Clone, Copy, PartialEq, Eq, Structural)]
pub enum EvmError {
    /// The gas meter went below zero.
    OutOfGas,
    /// An instruction needed more stack items than there are.
    StackUnderflow,
    /// An instruction would have grown the stack past 1024 items.
    StackOverflow,
    /// A jump to a position that is no valid jump target.
    InvalidJump(usize),
    /// The byte at the given position is no instruction.
    InvalidOpcode(u8, usize),
    /// A memory access whose end cannot be held in memory.
    MemoryAccess,
    /// A state change was attempted in a static frame.
    StaticViolation,
}

impl EvmError {
    /// The error in words.
    pub open spec fn message_spec(self) -> Seq<char> {
        match self {
            EvmError::OutOfGas => "out of gas"@,
            EvmError::StackUnderflow => "stack underflow"@,
            EvmError::StackOverflow => "stack overflow"@,
            EvmError::InvalidJump(dest) => "invalid jump destination "@ + digits_spec(
                dest as nat,
                10,
            ),
            EvmError::InvalidOpcode(op, pc) => "invalid opcode 0x"@ + hex_byte_spec(op)
                + " at pc="@ + digits_spec(pc as nat, 10),
            EvmError::MemoryAccess => "memory access out of bounds"@,
            EvmError::StaticViolation => "state modification in static context"@,
        }
    }

    /// The error in words.
    pub fn message(&self) -> (s: String)
        ensures
            s@ == self.message_spec(),
    {
        match self {
            EvmError::OutOfGas => String::from_str("out of gas"),
            EvmError::StackUnderflow => String::from_str("stack underflow"),
            EvmError::StackOverflow => String::from_str("stack overflow"),
            EvmError::InvalidJump(dest) => {
                let mut s = String::from_str("invalid jump destination ");
                append_digits(&mut s, *dest, 10);
                s
            },
            EvmError::InvalidOpcode(op, pc) => {
                let mut s = String::from_str("invalid opcode 0x");
                append_hex_byte(&mut s, *op);
                s.append(" at pc=");
                append_digits(&mut s, *pc, 10);
                s
            },
            EvmError::MemoryAccess => String::from_str("memory access out of bounds"),
            EvmError::StaticViolation => String::from_str("state modification in static context"),
        }
    }
}

/// The block that a frame runs in.
#[derive(Debug, Clone, Copy, PartialEq, Eq, Structural)]
pub struct BlockEnv {
    pub coinbase: Address,
    pub timestamp: u64,
    pub number: u64,
    pub gas_limit: Word,
    pub chain_id: Word,
    pub basefee: Word,
}

impl BlockEnv {
    /// The block with every field zero.
    pub open spec fn default_spec() -> BlockEnv {
        BlockEnv {
            coinbase: Address::zero_spec(),
            timestamp: 0,
            number: 0,
            gas_limit: Word::zero_spec(),
            chain_id: Word::zero_spec(),
            basefee: Word::zero_spec(),
        }
    }
}

impl Default for BlockEnv {
    fn default() -> (b: BlockEnv)
        ensures
            b == BlockEnv::default_spec(),
    {
        BlockEnv {
            coinbase: Address::zero(),
            timestamp: 0,
            number: 0,
            gas_limit: Word::zero(),
            chain_id: Word::zero(),
            basefee: Word::zero(),
        }
    }
}

/// An event that a frame emitted: up to four topics and a piece of memory.
#[derive(Debug)]
pub struct LogEntry {
    pub topics: Vec<Word>,
    pub data: Vec<u8>,
}

/// A log entry as mathematical values.
pub struct LogView {
    pub topics: Seq<Word>,
    pub data: Seq<u8>,
}

impl View for LogEntry {
    type V = LogView;

    open spec fn view(&self) -> LogView {
        LogView { topics: self.topics@, data: self.data@ }
    }
}

impl Clone for LogEntry {
    fn clone(&self) -> (e: LogEntry)
        ensures
            e@ == self@,
    {
        let mut topics: Vec<Word> = Vec::new();
        let mut i: usize = 0;
        while i < self.topics.len()
            invariant
                i <= self.topics@.len(),
                topics@ == self.topics@.subrange(0, i as int),
            decreases self.topics@.len() - i,
        {
            topics.push(self.topics[i]);
            i = i + 1;
            assert(topics@ =~= self.topics@.subrange(0, i as int));
        }
        assert(topics@ =~= self.topics@);
        let data = crate::bytes::copy_range(self.data.as_slice(), 0, self.data.len());
        assert(data@ =~= self.data@);
        LogEntry { topics, data }
    }
}

/// The log entries of a frame as mathematical values.
pub open spec fn log_views(logs: Seq<LogEntry>) -> Seq<LogView> {
    Seq::new(logs.len(), |i: int| logs[i]@)
}

} // verus!
