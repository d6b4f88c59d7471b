//! The fatal conditions of the machine.
use vstd::prelude::*;

verus! {

/// Why loading or running a program stopped. Every condition is fatal:
/// nothing in the machine recovers from one or retries.
#[derive(Debug, Clone, Copy, PartialEq, Eq, Structural)]
pub enum VmError {
    /// The byte stream ended in the middle of an item, or held an unknown tag.
    MalformedProgram,
    /// The program counter does not name an instruction of the program.
    PcOutOfBounds,
    /// A stack or heap position outside what is live.
    IndexOutOfBounds,
    /// The operand stack would hold more than its cap.
    StackOverflow,
    /// The heap would hold more than its cap.
    HeapOverflow,
    /// An instruction needs more operands than the stack holds.
    StackUnderflow,
    /// An operand is not of the kind that the instruction takes.
    TypeMismatch,
    /// A block of negative length was asked for.
    InvalidSize,
    /// Division with a zero divisor.
    DivideByZero,
    /// A return found something other than a code location in a saved slot.
    CorruptFrame,
}

} // verus!
