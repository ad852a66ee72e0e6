//! A CHIP-8 virtual machine with a two-pass, directive-aware assembler.
//!
//! The machine models the classic 4 KiB address space with a memory-mapped
//! register file, a bounded call stack guarded by a canary address, a 64x32
//! monochrome framebuffer with XOR sprite compositing, and two countdown
//! timers that call user-installed handler routines on expiry.

pub mod bits;
pub mod chip8;
pub mod config;
pub mod laws;
pub mod operations_set;
pub mod text;
pub mod timers;
