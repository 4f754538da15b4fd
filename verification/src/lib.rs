//! An LC-3 virtual machine: a 16-bit register file, a 64K-word address
//! space with a memory-mapped keyboard device, and the sixteen-opcode
//! fetch/decode/execute engine with its console-I/O trap routines.
//!
//! The library owns the machine state and every instruction's semantics.
//! All console I/O is performed by the caller: the engine reports the bytes
//! to write and the reads it needs, and takes keyboard input as values.

pub mod engine;
pub mod opcode;
pub mod state;
