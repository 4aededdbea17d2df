//! The disassembler: one line of text for each instruction.

use crate::jumpdest::next_op;
use crate::opcodes::{
    ADD, ADDRESS, AND, BALANCE, BASEFEE, BLOCKHASH, CALL, CALLCODE, CALLDATACOPY, CALLDATALOAD,
    CALLDATASIZE, CALLER, CALLVALUE, CHAINID, CODECOPY, CODESIZE, COINBASE, CREATE, CREATE2,
    DELEGATECALL, DIFFICULTY_PRAND, DIV, DUP1, DUP16, EQ, EXTCODECOPY, EXTCODEHASH, EXTCODESIZE,
    GAS, GASLIMIT_OP, GASPRICE, GT, ISZERO, JUMP, JUMPDEST, JUMPI, LOG0, LOG1, LOG2, LOG3, LOG4,
    LT, MLOAD, MSIZE, MSTORE, MSTORE8, MUL, NOT, NUMBER, OR, ORIGIN, PC, POP, PUSH0, PUSH1,
    PUSH32, RETURN, RETURNDATACOPY, RETURNDATASIZE, REVERT, SELFBALANCE, SHA3, SLOAD, SSTORE,
    STATICCALL, STOP, SUB, SWAP1, SWAP16, TIMESTAMP, XOR,
};
use crate::text::{
    append_digits, append_hex, append_hex_byte, digits_spec, hex_byte_spec, hex_padded, hex_spec,
    pad_left,
};
use vstd::prelude::*;
use vstd::string::*;

verus! {

/// The name of an instruction that is written without a number or an
/// immediate; none for PUSH1 to PUSH32, DUP, SWAP and bytes that are no
/// instruction.
pub open spec fn mnemonic_spec(op: u8) -> Option<Seq<char>> {
    if op == STOP {
        Some("STOP"@)
    } else if op == ADD {
        Some("ADD"@)
    } else if op == MUL {
        Some("MUL"@)
    } else if op == SUB {
        Some("SUB"@)
    } else if op == DIV {
        Some("DIV"@)
    } else if op == LT {
        Some("LT"@)
    } else if op == GT {
        Some("GT"@)
    } else if op == EQ {
        Some("EQ"@)
    } else if op == ISZERO {
        Some("ISZERO"@)
    } else if op == AND {
        Some("AND"@)
    } else if op == OR {
        Some("OR"@)
    } else if op == XOR {
        Some("XOR"@)
    } else if op == NOT {
        Some("NOT"@)
    } else if op == SHA3 {
        Some("SHA3"@)
    } else if op == ADDRESS {
        Some("ADDRESS"@)
    } else if op == BALANCE {
        Some("BALANCE"@)
    } else if op == ORIGIN {
        Some("ORIGIN"@)
    } else if op == CALLER {
        Some("CALLER"@)
    } else if op == CALLVALUE {
        Some("CALLVALUE"@)
    } else if op == POP {
        Some("POP"@)
    } else if op == MLOAD {
        Some("MLOAD"@)
    } else if op == MSTORE {
        Some("MSTORE"@)
    } else if op == MSTORE8 {
        Some("MSTORE8"@)
    } else if op == SLOAD {
        Some("SLOAD"@)
    } else if op == SSTORE {
        Some("SSTORE"@)
    } else if op == JUMP {
        Some("JUMP"@)
    } else if op == JUMPI {
        Some("JUMPI"@)
    } else if op == JUMPDEST {
        Some("JUMPDEST"@)
    } else if op == PUSH0 {
        Some("PUSH0"@)
    } else if op == PC {
        Some("PC"@)
    } else if op == MSIZE {
        Some("MSIZE"@)
    } else if op == GAS {
        Some("GAS"@)
    } else if op == CALLDATALOAD {
        Some("CALLDATALOAD"@)
    } else if op == CALLDATASIZE {
        Some("CALLDATASIZE"@)
    } else if op == CALLDATACOPY {
        Some("CALLDATACOPY"@)
    } else if op == CODESIZE {
        Some("CODESIZE"@)
    } else if op == CODECOPY {
        Some("CODECOPY"@)
    } else if op == GASPRICE {
        Some("GASPRICE"@)
    } else if op == EXTCODESIZE {
        Some("EXTCODESIZE"@)
    } else if op == EXTCODECOPY {
        Some("EXTCODECOPY"@)
    } else if op == RETURNDATASIZE {
        Some("RETURNDATASIZE"@)
    } else if op == RETURNDATACOPY {
        Some("RETURNDATACOPY"@)
    } else if op == EXTCODEHASH {
        Some("EXTCODEHASH"@)
    } else if op == BLOCKHASH {
        Some("BLOCKHASH"@)
    } else if op == COINBASE {
        Some("COINBASE"@)
    } else if op == TIMESTAMP {
        Some("TIMESTAMP"@)
    } else if op == NUMBER {
        Some("NUMBER"@)
    } else if op == DIFFICULTY_PRAND {
        Some("PREVRANDAO"@)
    } else if op == GASLIMIT_OP {
        Some("GASLIMIT"@)
    } else if op == CHAINID {
        Some("CHAINID"@)
    } else if op == SELFBALANCE {
        Some("SELFBALANCE"@)
    } else if op == BASEFEE {
        Some("BASEFEE"@)
    } else if op == RETURN {
        Some("RETURN"@)
    } else if op == REVERT {
        Some("REVERT"@)
    } else if op == CALL {
        Some("CALL"@)
    } else if op == CALLCODE {
        Some("CALLCODE"@)
    } else if op == STATICCALL {
        Some("STATICCALL"@)
    } else if op == DELEGATECALL {
        Some("DELEGATECALL"@)
    } else if op == CREATE {
        Some("CREATE"@)
    } else if op == CREATE2 {
        Some("CREATE2"@)
    } else if op == LOG0 {
        Some("LOG0"@)
    } else if op == LOG1 {
        Some("LOG1"@)
    } else if op == LOG2 {
        Some("LOG2"@)
    } else if op == LOG3 {
        Some("LOG3"@)
    } else if op == LOG4 {
        Some("LOG4"@)
    } else {
        None
    }
}

/// The text of the instruction at `pc`, after the position: its name;
/// for PUSH1 to PUSH32 the count and the immediate bytes that the code
/// holds; for DUP and SWAP the count; for any other byte its two
/// hexadecimal digits after `0x`.
pub open spec fn body_spec(code: Seq<u8>, pc: int) -> Seq<char> {
    let op = code[pc];
    if PUSH1 <= op && op <= PUSH32 {
        let n = op - PUSH1 + 1;
        let end = if pc + 1 + n <= code.len() {
            pc + 1 + n
        } else {
            code.len() as int
        };
        "PUSH"@ + digits_spec(n as nat, 10) + " 0x"@ + hex_spec(code.subrange(pc + 1, end))
    } else if DUP1 <= op && op <= DUP16 {
        "DUP"@ + digits_spec((op - DUP1 + 1) as nat, 10)
    } else if SWAP1 <= op && op <= SWAP16 {
        "SWAP"@ + digits_spec((op - SWAP1 + 1) as nat, 10)
    } else {
        match mnemonic_spec(op) {
            Some(name) => name,
            None => "0x"@ + hex_byte_spec(op),
        }
    }
}

/// The line for the instruction at `pc`: the position as at least four
/// hexadecimal digits, a colon and a space, then the instruction.
pub open spec fn line_spec(code: Seq<u8>, pc: int) -> Seq<char> {
    pad_left(4, digits_spec(pc as nat, 16)) + ": "@ + body_spec(code, pc)
}

/// The lines for the instructions from `pc` on.
pub open spec fn disasm_from(code: Seq<u8>, pc: int) -> Seq<Seq<char>>
    decreases code.len() - pc,
{
    if pc < 0 || pc >= code.len() {
        Seq::empty()
    } else {
        seq![line_spec(code, pc)] + if next_op(code, pc) >= code.len() {
            Seq::empty()
        } else {
            disasm_from(code, next_op(code, pc))
        }
    }
}

/// The lines of a listing as sequences of characters.
pub open spec fn lines_view(lines: Seq<String>) -> Seq<Seq<char>> {
    Seq::new(lines.len(), |i: int| lines[i]@)
}

/// The name of an instruction that is written without a number or an
/// immediate.
pub fn mnemonic(op: u8) -> (r: Option<&'static str>)
    ensures
        match mnemonic_spec(op) {
            Some(name) => r is Some && r->0@ == name,
            None => r is None,
        },
{
    if op == STOP {
        Some("STOP")
    } else if op == ADD {
        Some("ADD")
    } else if op == MUL {
        Some("MUL")
    } else if op == SUB {
        Some("SUB")
    } else if op == DIV {
        Some("DIV")
    } else if op == LT {
        Some("LT")
    } else if op == GT {
        Some("GT")
    } else if op == EQ {
        Some("EQ")
    } else if op == ISZERO {
        Some("ISZERO")
    } else if op == AND {
        Some("AND")
    } else if op == OR {
        Some("OR")
    } else if op == XOR {
        Some("XOR")
    } else if op == NOT {
        Some("NOT")
    } else if op == SHA3 {
        Some("SHA3")
    } else if op == ADDRESS {
        Some("ADDRESS")
    } else if op == BALANCE {
        Some("BALANCE")
    } else if op == ORIGIN {
        Some("ORIGIN")
    } else if op == CALLER {
        Some("CALLER")
    } else if op == CALLVALUE {
        Some("CALLVALUE")
    } else if op == POP {
        Some("POP")
    } else if op == MLOAD {
        Some("MLOAD")
    } else if op == MSTORE {
        Some("MSTORE")
    } else if op == MSTORE8 {
        Some("MSTORE8")
    } else if op == SLOAD {
        Some("SLOAD")
    } else if op == SSTORE {
        Some("SSTORE")
    } else if op == JUMP {
        Some("JUMP")
    } else if op == JUMPI {
        Some("JUMPI")
    } else if op == JUMPDEST {
        Some("JUMPDEST")
    } else if op == PUSH0 {
        Some("PUSH0")
    } else if op == PC {
        Some("PC")
    } else if op == MSIZE {
        Some("MSIZE")
    } else if op == GAS {
        Some("GAS")
    } else if op == CALLDATALOAD {
        Some("CALLDATALOAD")
    } else if op == CALLDATASIZE {
        Some("CALLDATASIZE")
    } else if op == CALLDATACOPY {
        Some("CALLDATACOPY")
    } else if op == CODESIZE {
        Some("CODESIZE")
    } else if op == CODECOPY {
        Some("CODECOPY")
    } else if op == GASPRICE {
        Some("GASPRICE")
    } else if op == EXTCODESIZE {
        Some("EXTCODESIZE")
    } else if op == EXTCODECOPY {
        Some("EXTCODECOPY")
    } else if op == RETURNDATASIZE {
        Some("RETURNDATASIZE")
    } else if op == RETURNDATACOPY {
        Some("RETURNDATACOPY")
    } else if op == EXTCODEHASH {
        Some("EXTCODEHASH")
    } else if op == BLOCKHASH {
        Some("BLOCKHASH")
    } else if op == COINBASE {
        Some("COINBASE")
    } else if op == TIMESTAMP {
        Some("TIMESTAMP")
    } else if op == NUMBER {
        Some("NUMBER")
    } else if op == DIFFICULTY_PRAND {
        Some("PREVRANDAO")
    } else if op == GASLIMIT_OP {
        Some("GASLIMIT")
    } else if op == CHAINID {
        Some("CHAINID")
    } else if op == SELFBALANCE {
        Some("SELFBALANCE")
    } else if op == BASEFEE {
        Some("BASEFEE")
    } else if op == RETURN {
        Some("RETURN")
    } else if op == REVERT {
        Some("REVERT")
    } else if op == CALL {
        Some("CALL")
    } else if op == CALLCODE {
        Some("CALLCODE")
    } else if op == STATICCALL {
        Some("STATICCALL")
    } else if op == DELEGATECALL {
        Some("DELEGATECALL")
    } else if op == CREATE {
        Some("CREATE")
    } else if op == CREATE2 {
        Some("CREATE2")
    } else if op == LOG0 {
        Some("LOG0")
    } else if op == LOG1 {
        Some("LOG1")
    } else if op == LOG2 {
        Some("LOG2")
    } else if op == LOG3 {
        Some("LOG3")
    } else if op == LOG4 {
        Some("LOG4")
    } else {
        None
    }
}

/// Lists the instructions of `code`, one line for each.
pub fn disassemble(code: &[u8]) -> (out: Vec<String>)
    ensures
        lines_view(out@) == disasm_from(code@, 0),
{
    let mut out: Vec<String> = Vec::new();
    let mut pc: usize = 0;
    let len: usize = code.len();
    assert(lines_view(out@) + disasm_from(code@, 0) =~= disasm_from(code@, 0));
    while pc < len
        invariant
            len == code@.len(),
            pc <= len,
            lines_view(out@) + disasm_from(code@, pc as int) == disasm_from(code@, 0),
        decreases len - pc,
    {
        let op: u8 = code[pc];
        let mut line = hex_padded(pc, 4);
        line.append(": ");
        let next: usize;
        if op >= PUSH1 && op <= PUSH32 {
            let n: usize = (op - PUSH1) as usize + 1;
            let start: usize = pc + 1;
            let end: usize = if len - start < n {
                len
            } else {
                start + n
            };
            line.append("PUSH");
            append_digits(&mut line, n, 10);
            line.append(" 0x");
            append_hex(&mut line, vstd::slice::slice_subrange(code, start, end));
            next = end;
        } else if op >= DUP1 && op <= DUP16 {
            line.append("DUP");
            append_digits(&mut line, (op - DUP1) as usize + 1, 10);
            next = pc + 1;
        } else if op >= SWAP1 && op <= SWAP16 {
            line.append("SWAP");
            append_digits(&mut line, (op - SWAP1) as usize + 1, 10);
            next = pc + 1;
        } else {
            match mnemonic(op) {
                Some(name) => {
                    line.append(name);
                },
                None => {
                    line.append("0x");
                    append_hex_byte(&mut line, op);
                },
            }
            next = pc + 1;
        }
        proof {
            assert(line@ =~= line_spec(code@, pc as int));
            let ghost_next = next_op(code@, pc as int);
            assert(next as int == ghost_next || (next == len && ghost_next >= len));
            assert(disasm_from(code@, pc as int) =~= seq![line_spec(code@, pc as int)]
                + disasm_from(code@, next as int));
        }
        let ghost before = lines_view(out@);
        let ghost line_view = line@;
        out.push(line);
        proof {
            assert(lines_view(out@) =~= before.push(line_view));
            assert(before.push(line_view) + disasm_from(code@, next as int) =~= before
                + disasm_from(code@, pc as int));
        }
        pc = next;
    }
    assert(lines_view(out@) + disasm_from(code@, pc as int) =~= lines_view(out@));
    out
}

} // verus!
