//! What a step of the machine can report in place of success.

use vstd::prelude::*;

verus! {

/// A condition reported by one execution step. Everything but `Exit` is a
/// fault of the running program; `Exit` is its request to terminate.
#[derive(Clone, Copy, Debug, PartialEq, Eq, Structural)]
pub enum EmuError {
    /// The instruction word matches no defined instruction.
    InvalidOpcode(u16),
    /// A call was attempted with the call stack at capacity.
    StackOverflow,
    /// A return was attempted with an empty call stack.
    StackUnderflow,
    /// A memory, bitmap, register or keypad address is out of bounds.
    IndexOutOfRange,
    /// The program asked the machine to stop.
    Exit,
}

} // verus!
