//! The UserOperation simulation and validation core of an ERC-4337
//! bundler: given the EntryPoint's validation result and an opcode-level
//! trace of the validation call, it decides whether a candidate
//! UserOperation is safe to admit into the mempool.
//!
//! The outside calls (the EntryPoint RPC, bytecode fetches, the mempool and
//! reputation stores) are driven by the caller around the transition
//! functions of `machine`; every rule in between is verified.

pub mod abi;
pub mod callstack;
pub mod codehash;
pub mod errors;
pub mod hash;
pub mod machine;
pub mod num;
pub mod pool;
pub mod slots;
pub mod opcodes;
pub mod stake;
pub mod storage;
pub mod strutil;
pub mod types;
pub mod util;
