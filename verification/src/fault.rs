//! Conditions that stop the machine.

use vstd::prelude::*;

verus! {

/// A fatal condition. A machine that reports one is left as it was before
/// the operation that met it.
#[derive(Clone, Copy, Debug, PartialEq, Eq, Structural)]
pub enum Fault {
    /// The program handed to the constructor has no bytes.
    EmptyProgram,
    /// The program handed to the constructor does not fit above the load address.
    ProgramTooLarge,
    /// The instruction word belongs to no defined instruction.
    UndefinedOpcode(u16),
    /// A call was made with sixteen return addresses already on the stack.
    StackOverflow,
    /// A return was made with no return address on the stack.
    StackUnderflow,
    /// The program counter does not address two bytes inside memory.
    PcOutOfRange,
    /// An instruction would read or write beyond the end of memory.
    MemoryOutOfRange,
    /// A register used as a key number holds a value above 0xF.
    KeyOutOfRange,
    /// Adding a register to the address register leaves sixteen bits.
    IndexOverflow,
}

} // verus!
