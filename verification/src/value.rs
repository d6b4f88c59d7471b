//! Values and instructions.
use vstd::prelude::*;

verus! {

/// A heap position: the index of a block's size slot.
pub type Address = usize;

/// The operators that take one operand.
#[derive(Debug, Clone, Copy, PartialEq, Eq, Structural)]
pub enum Unop {
    /// Boolean negation.
    Neg,
}

/// The operators that take two operands, both 32-bit signed integers.
#[derive(Debug, Clone, Copy, PartialEq, Eq, Structural)]
pub enum Binop {
    /// Addition.
    Add,
    /// Multiplication.
    Mul,
    /// Subtraction.
    Sub,
    /// Division, rounding toward zero.
    Div,
    /// Strictly less.
    Lt,
    /// Equality.
    Eq,
}

/// A runtime value. A value keeps its kind wherever it moves: no instruction
/// converts one kind into another.
#[derive(Debug, Clone, Copy, PartialEq, Eq, Structural)]
pub enum Val {
    /// No value.
    Vunit,
    /// A 32-bit signed integer.
    Vi32(i32),
    /// A boolean.
    Vbool(bool),
    /// A code location: a jump target, a saved program counter or a saved
    /// frame pointer.
    Vloc(u32),
    /// The undefined value.
    Vundef,
    /// The size slot that precedes a heap block's payload.
    Vsize(i32),
    /// The address of a heap block.
    Vaddr(Address),
}

/// One instruction of a program.
#[derive(Debug, Clone, Copy, PartialEq, Eq, Structural)]
pub enum Instr {
    /// Push a literal.
    Push(Val),
    /// Drop the top of the stack.
    Pop,
    /// Push a copy of the slot at an absolute stack index.
    Peek(u32),
    /// Apply a unary operator to the top of the stack.
    Unary(Unop),
    /// Apply a binary operator to the two topmost slots.
    Binary(Binop),
    /// Exchange the two topmost slots.
    Swap,
    /// Allocate a heap block.
    Alloc,
    /// Write a slot of a heap block.
    Put,
    /// Read a slot of a heap block.
    Get,
    /// Push a copy of the slot at an index relative to the frame pointer.
    Var(u32),
    /// Pop into the slot at an index relative to the frame pointer.
    Store(u32),
    /// Save the frame pointer and open a frame.
    SetFrame(u32),
    /// Jump to a code location, leaving the return address.
    Call,
    /// Leave a frame.
    Ret,
    /// Jump if a condition holds.
    Branch,
    /// Stop the machine.
    Halt,
}

} // verus!
