//! Labels for tracing a run: the name of an instruction, and the state of
//! a frame in a word.

use crate::machine::Evm;
use crate::opcodes::{
    ADD, AND, CALLDATACOPY, CALLDATALOAD, CALLDATASIZE, CODECOPY, CODESIZE, DIV, DUP1, DUP16, EQ,
    GAS, GT, ISZERO, JUMP, JUMPDEST, JUMPI, LOG0, LOG1, LOG2, LOG3, LOG4, LT, MLOAD, MSIZE,
    MSTORE, MSTORE8, MUL, NOT, OR, PC, POP, PUSH0, PUSH1, PUSH32, RETURN, REVERT, SHA3, SLOAD,
    SSTORE, STOP, SUB, SWAP1, SWAP16, XOR,
};
use crate::types::Halt;
use vstd::prelude::*;

verus! {

/// The label of an instruction in a trace: its name for the instructions
/// that compute, move data within the frame or end it, one label for each
/// of the PUSH, DUP and SWAP families, and a question mark for any other
/// byte.
pub open spec fn opcode_name_spec(op: u8) -> Seq<char> {
    if op == STOP {
        "STOP"@
    } else if op == ADD {
        "ADD"@
    } else if op == MUL {
        "MUL"@
    } else if op == SUB {
        "SUB"@
    } else if op == DIV {
        "DIV"@
    } else if op == LT {
        "LT"@
    } else if op == GT {
        "GT"@
    } else if op == EQ {
        "EQ"@
    } else if op == ISZERO {
        "ISZERO"@
    } else if op == AND {
        "AND"@
    } else if op == OR {
        "OR"@
    } else if op == XOR {
        "XOR"@
    } else if op == NOT {
        "NOT"@
    } else if op == SHA3 {
        "SHA3"@
    } else if op == POP {
        "POP"@
    } else if op == MLOAD {
        "MLOAD"@
    } else if op == MSTORE {
        "MSTORE"@
    } else if op == MSTORE8 {
        "MSTORE8"@
    } else if op == SLOAD {
        "SLOAD"@
    } else if op == SSTORE {
        "SSTORE"@
    } else if op == JUMP {
        "JUMP"@
    } else if op == JUMPI {
        "JUMPI"@
    } else if op == JUMPDEST {
        "JUMPDEST"@
    } else if op == PUSH0 {
        "PUSH0"@
    } else if op == PC {
        "PC"@
    } else if op == MSIZE {
        "MSIZE"@
    } else if op == GAS {
        "GAS"@
    } else if op == CALLDATALOAD {
        "CALLDATALOAD"@
    } else if op == CALLDATASIZE {
        "CALLDATASIZE"@
    } else if op == CALLDATACOPY {
        "CALLDATACOPY"@
    } else if op == CODESIZE {
        "CODESIZE"@
    } else if op == CODECOPY {
        "CODECOPY"@
    } else if op == RETURN {
        "RETURN"@
    } else if op == REVERT {
        "REVERT"@
    } else if op == LOG0 {
        "LOG0"@
    } else if op == LOG1 {
        "LOG1"@
    } else if op == LOG2 {
        "LOG2"@
    } else if op == LOG3 {
        "LOG3"@
    } else if op == LOG4 {
        "LOG4"@
    } else {
        if PUSH1 <= op && op <= PUSH32 {
            "PUSHn"@
        } else if DUP1 <= op && op <= DUP16 {
            "DUPn"@
        } else if SWAP1 <= op && op <= SWAP16 {
            "SWAPn"@
        } else {
            "?"@
        }
    }
}

/// The label of an instruction in a trace.
pub fn opcode_name(op: u8) -> (r: &'static str)
    ensures
        r@ == opcode_name_spec(op),
{
    if op == STOP {
        "STOP"
    } else if op == ADD {
        "ADD"
    } else if op == MUL {
        "MUL"
    } else if op == SUB {
        "SUB"
    } else if op == DIV {
        "DIV"
    } else if op == LT {
        "LT"
    } else if op == GT {
        "GT"
    } else if op == EQ {
        "EQ"
    } else if op == ISZERO {
        "ISZERO"
    } else if op == AND {
        "AND"
    } else if op == OR {
        "OR"
    } else if op == XOR {
        "XOR"
    } else if op == NOT {
        "NOT"
    } else if op == SHA3 {
        "SHA3"
    } else if op == POP {
        "POP"
    } else if op == MLOAD {
        "MLOAD"
    } else if op == MSTORE {
        "MSTORE"
    } else if op == MSTORE8 {
        "MSTORE8"
    } else if op == SLOAD {
        "SLOAD"
    } else if op == SSTORE {
        "SSTORE"
    } else if op == JUMP {
        "JUMP"
    } else if op == JUMPI {
        "JUMPI"
    } else if op == JUMPDEST {
        "JUMPDEST"
    } else if op == PUSH0 {
        "PUSH0"
    } else if op == PC {
        "PC"
    } else if op == MSIZE {
        "MSIZE"
    } else if op == GAS {
        "GAS"
    } else if op == CALLDATALOAD {
        "CALLDATALOAD"
    } else if op == CALLDATASIZE {
        "CALLDATASIZE"
    } else if op == CALLDATACOPY {
        "CALLDATACOPY"
    } else if op == CODESIZE {
        "CODESIZE"
    } else if op == CODECOPY {
        "CODECOPY"
    } else if op == RETURN {
        "RETURN"
    } else if op == REVERT {
        "REVERT"
    } else if op == LOG0 {
        "LOG0"
    } else if op == LOG1 {
        "LOG1"
    } else if op == LOG2 {
        "LOG2"
    } else if op == LOG3 {
        "LOG3"
    } else if op == LOG4 {
        "LOG4"
    } else {
        if PUSH1 <= op && op <= PUSH32 {
            "PUSHn"
        } else if DUP1 <= op && op <= DUP16 {
            "DUPn"
        } else if SWAP1 <= op && op <= SWAP16 {
            "SWAPn"
        } else {
            "?"
        }
    }
}

/// The state of a frame in a word: how it halted, or `EOF` where it has
/// left its code, or `RUNNING`.
pub open spec fn halt_status_spec(halted: Option<Halt>, pc: int, code_len: int) -> Seq<char> {
    match halted {
        Some(Halt::Stop) => "STOP"@,
        Some(Halt::Return) => "RETURN"@,
        Some(Halt::Revert) => "REVERT"@,
        None => if pc >= code_len {
            "EOF"@
        } else {
            "RUNNING"@
        },
    }
}

/// The state of a frame in a word.
pub fn halt_status(evm: &Evm) -> (r: &'static str)
    ensures
        r@ == halt_status_spec(evm.halted, evm.pc as int, evm.code@.len() as int),
{
    match evm.halted {
        Some(Halt::Stop) => "STOP",
        Some(Halt::Return) => "RETURN",
        Some(Halt::Revert) => "REVERT",
        None => if evm.pc >= evm.code.len() {
            "EOF"
        } else {
            "RUNNING"
        },
    }
}

/// Whether a trace ends before the next step: the frame has left its code
/// or halted, or `max_steps` steps have been made.
pub fn trace_done(evm: &Evm, steps: usize, max_steps: usize) -> (done: bool)
    ensures
        done == (evm.pc >= evm.code@.len() || evm.halted is Some || steps >= max_steps),
{
    evm.pc >= evm.code.len() || evm.halted.is_some() || steps >= max_steps
}

} // verus!
