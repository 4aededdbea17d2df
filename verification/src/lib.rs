//! A small stack-based bytecode virtual machine for the EVM instruction set.
//!
//! The interpreter, its gas schedule, the memory model and the world state are
//! verified against a mathematical model of the machine: every executable
//! function carries a contract over that model.

pub mod address;
pub mod assoc;
pub mod bytes;
pub mod disasm;
pub mod gas;
pub mod hash;
pub mod jumpdest;
pub mod laws;
pub mod machine;
pub mod memory;
pub mod model;
pub mod opcodes;
pub mod parse;
pub mod rlp;
pub mod text;
pub mod trace;
pub mod types;
pub mod word;
pub mod world;
pub mod world_text;

pub use address::Address;
pub use disasm::disassemble;
pub use machine::{Account, BlockEnv, Evm, EvmConfig, EvmError, Halt, LogEntry, World};
pub use word::Word;
pub use world::Storage;
