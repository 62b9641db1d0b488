use vstd::prelude::*;

verus! {

/// Why an entry point of the machine refused to act.
///
/// Every failure is reported to the caller of the entry point that met it, and
/// leaves the machine as it was before the failing operation.
#[derive(Clone, Copy, Debug, PartialEq, Eq, Structural)]
pub enum Error {
    /// The fetched word matches no instruction pattern. `pc` is the address the
    /// word was fetched from.
    UnknownInstruction { opcode: u16, pc: u16 },
    /// A return was attempted with an empty call stack.
    StackUnderflow,
    /// A call was attempted with all sixteen stack slots in use.
    StackOverflow,
    /// The program image does not fit between the load address and the end of
    /// memory.
    ProgramTooLarge,
    /// A key code outside `0x0..=0xF`.
    InvalidKeyCode,
    /// An instruction fetch or a memory operand reaches past the last byte of
    /// memory.
    MemoryOutOfBounds,
}

} // verus!
