//! The terminal errors an instruction stream can raise.

use vstd::prelude::*;

verus! {

/// A fault is terminal to the instruction stream: the interpreter reports
/// it to the host together with enough context (the offending opcode, the
/// program counter) for diagnosis, and mutates no state when one is
/// raised.  The host decides whether to halt, reset, or ignore it.
#[derive(Clone, Copy, Debug, PartialEq, Eq, Structural)]
pub enum Fault {
    /// The opcode matches no known instruction in its group.
    Decode { opcode: u16, pc: u16 },
    /// A return was executed with an empty call stack.
    StackUnderflow { pc: u16 },
    /// A call was executed with the call stack already at its
    /// conventional hardware limit of 16 return addresses.
    StackOverflow { pc: u16 },
    /// A memory access (an instruction fetch, or a read or write through
    /// the index register) fell outside the 4096-byte address space.
    Memory { pc: u16 },
    /// The program image, placed at the 0x200 program entry, would
    /// overflow the 4096-byte address space.  Raised before any state is
    /// mutated.
    LoadTooLarge { len: usize },
}

} // verus!
