//! A verified interpreter for a small 1970s-era 8-bit virtual machine:
//! 16 general registers, 4KB of memory, a 64x32 monochrome display,
//! two countdown timers and a 24-entry call stack.
//!
//! The library holds all architectural state in [`state::Cpu`] and executes
//! the fixed two-byte instruction set with bit-exact semantics stated in
//! the contracts. Reading a program image from disk, rendering the display
//! and pacing the cycle loop are left to an outside driver.
//!
//! Bounds policy: any instruction fetch or memory access that would reach
//! past the 4096-byte memory is a fatal fault ([`instr::Fault::OutOfBounds`]),
//! never a silent clamp; program-counter and index-register arithmetic
//! wraps at 16 bits; 8-bit register arithmetic wraps at 8 bits except
//! where an instruction stores an explicit flag in register 15.

pub mod state;
pub mod instr;
pub mod exec;
pub mod laws;
