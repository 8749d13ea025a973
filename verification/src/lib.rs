//! A verified core for a classic virtual machine with 16-bit opcodes and
//! 8-bit data registers: a total instruction decoder, a 4096-byte memory with
//! a protected font region and an internal call stack, a register file with
//! two countdown timers, and an execution engine that steps one instruction
//! at a time against a host-owned 64x32 monochrome display.

pub mod display;
pub mod engine;
pub mod instruction;
pub mod laws;
pub mod memory;
pub mod registers;
