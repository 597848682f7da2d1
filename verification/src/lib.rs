//! A verified interpreter core for the CHIP-8 virtual machine.
//!
//! The machine owns a 4096-byte memory, sixteen 8-bit registers, a call
//! stack, an index register, a program counter, two timers, a 64x32
//! monochrome display and the state of a 16-key hexadecimal keypad.  The
//! host driver loads a program, then repeatedly feeds key state in,
//! executes instructions one at a time and reads the display and timers
//! back out; every instruction's effect on the machine is specified by a
//! mathematical transition function and proved.

pub mod fault;
pub mod instr;
pub mod laws;
pub mod model;
pub mod vm;
