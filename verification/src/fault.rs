//! The fatal conditions. None is recovered from: a machine that meets one
//! stops where it stands.

use vstd::prelude::*;

verus! {

/// Why the machine stopped.
#[derive(Clone, Copy, Debug, PartialEq, Eq, Structural)]
pub enum Fault {
    /// A subroutine call with sixteen return addresses on the call stack.
    StackOverflow,
    /// A return with no return address on the call stack.
    StackUnderflow,
    /// The word at `address`, made of the bytes `high` and `low`, encodes
    /// no operation that the machine implements.
    Unimplemented { address: u16, high: u8, low: u8 },
    /// An instruction fetch or a memory operand reaches past the last byte
    /// of memory; `address` is the lowest address it would touch there.
    OutOfRange { address: u16 },
    /// A program of `length` bytes does not fit between the load address
    /// and the end of memory.
    ProgramTooLarge { length: usize },
}

} // verus!
