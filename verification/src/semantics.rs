//! What each instruction does, as functions on the mathematical machine.
//!
//! Every function here gives either the machine after the instruction or the
//! fatal condition that stops it. The executable evaluator is proved against
//! these functions.
use crate::error::VmError;
use crate::state::{Machine, HEAP_SIZE, STACK_SIZE};
use crate::value::{Address, Binop, Instr, Val};
use vstd::prelude::*;

verus! {

/// The 32-bit signed integer that `x` wraps to: the one that differs from
/// `x` by a multiple of 2^32.
pub open spec fn wrap32(x: int) -> i32 {
    let low = x % 0x1_0000_0000;
    if low >= 0x8000_0000 {
        (low - 0x1_0000_0000) as i32
    } else {
        low as i32
    }
}

/// The distance of `x` from zero.
pub open spec fn magnitude(x: int) -> int {
    if x < 0 {
        -x
    } else {
        x
    }
}

/// `a` divided by `b`, rounded toward zero.
pub open spec fn quotient_toward_zero(a: int, b: int) -> int
    recommends
        b != 0,
{
    if (a < 0) == (b < 0) {
        magnitude(a) / magnitude(b)
    } else {
        -(magnitude(a) / magnitude(b))
    }
}

/// The value of `first op second`. Sums, differences, products and
/// quotients wrap to 32 bits.
pub open spec fn binop_value(op: Binop, first: i32, second: i32) -> Result<Val, VmError> {
    match op {
        Binop::Add => Ok(Val::Vi32(wrap32(first + second))),
        Binop::Sub => Ok(Val::Vi32(wrap32(first - second))),
        Binop::Mul => Ok(Val::Vi32(wrap32(first * second))),
        Binop::Div => if second == 0 {
            Err(VmError::DivideByZero)
        } else {
            Ok(Val::Vi32(wrap32(quotient_toward_zero(first as int, second as int))))
        },
        Binop::Lt => Ok(Val::Vbool(first < second)),
        Binop::Eq => Ok(Val::Vbool(first == second)),
    }
}

/// Negates the boolean on top of the stack.
pub open spec fn unary_step(m: Machine) -> Result<Machine, VmError> {
    if m.stack.len() < 1 {
        Err(VmError::StackUnderflow)
    } else {
        match m.from_top(0) {
            Val::Vbool(b) => Ok(m.replace_top(1, seq![Val::Vbool(!b)])),
            _ => Err(VmError::TypeMismatch),
        }
    }
}

/// Replaces the two topmost slots by `top op second`.
pub open spec fn binary_step(op: Binop, m: Machine) -> Result<Machine, VmError> {
    if m.stack.len() < 2 {
        Err(VmError::StackUnderflow)
    } else {
        match (m.from_top(0), m.from_top(1)) {
            (Val::Vi32(first), Val::Vi32(second)) => match binop_value(op, first, second) {
                Ok(v) => Ok(m.replace_top(2, seq![v])),
                Err(e) => Err(e),
            },
            _ => Err(VmError::TypeMismatch),
        }
    }
}

/// A new block: its size slot and `count` copies of `fill`.
pub open spec fn block(count: i32, fill: Val) -> Seq<Val> {
    seq![Val::Vsize(count)] + Seq::new(count as nat, |i: int| fill)
}

/// Takes the fill value (top) and the element count (below it) off the
/// stack, appends a block to the heap and pushes the block's address.
pub open spec fn alloc_step(m: Machine) -> Result<Machine, VmError> {
    if m.stack.len() < 2 {
        Err(VmError::StackUnderflow)
    } else {
        match m.from_top(1) {
            Val::Vi32(count) => if count < 0 {
                Err(VmError::InvalidSize)
            } else if m.heap.len() + 1 + count > HEAP_SIZE {
                Err(VmError::HeapOverflow)
            } else {
                Ok(
                    Machine {
                        heap: m.heap + block(count, m.from_top(0)),
                        ..m.replace_top(2, seq![Val::Vaddr(m.heap.len() as Address)])
                    },
                )
            },
            _ => Err(VmError::TypeMismatch),
        }
    }
}

/// The heap position of element `index` of the block at `base`, where the
/// heap has a size slot at `base` and the element lies in that block.
pub open spec fn heap_slot(heap: Seq<Val>, base: Address, index: i32) -> Option<int> {
    if base >= heap.len() {
        None
    } else {
        match heap[base as int] {
            Val::Vsize(count) => if 0 <= index < count && base + 1 + index < heap.len() {
                Some(base + 1 + index)
            } else {
                None
            },
            _ => None,
        }
    }
}

/// Takes a value (top), an index and a block address off the stack and
/// writes the value into the block.
pub open spec fn set_step(m: Machine) -> Result<Machine, VmError> {
    if m.stack.len() < 3 {
        Err(VmError::StackUnderflow)
    } else {
        match (m.from_top(1), m.from_top(2)) {
            (Val::Vi32(index), Val::Vaddr(base)) => match heap_slot(m.heap, base, index) {
                Some(at) => Ok(
                    Machine { heap: m.heap.update(at, m.from_top(0)), ..m.replace_top(3, seq![]) },
                ),
                None => Err(VmError::IndexOutOfBounds),
            },
            _ => Err(VmError::TypeMismatch),
        }
    }
}

/// Takes an index (top) and a block address off the stack and pushes the
/// block's element.
pub open spec fn get_step(m: Machine) -> Result<Machine, VmError> {
    if m.stack.len() < 2 {
        Err(VmError::StackUnderflow)
    } else {
        match (m.from_top(0), m.from_top(1)) {
            (Val::Vi32(index), Val::Vaddr(base)) => match heap_slot(m.heap, base, index) {
                Some(at) => Ok(m.replace_top(2, seq![m.heap[at]])),
                None => Err(VmError::IndexOutOfBounds),
            },
            _ => Err(VmError::TypeMismatch),
        }
    }
}

/// Leaves a frame. The three topmost slots are, from the top, the return
/// value, the saved program counter and the saved frame pointer. They and
/// every slot from the frame pointer upward go; the return value comes back
/// on top, and program counter and frame pointer are the saved ones.
pub open spec fn ret_step(m: Machine) -> Result<Machine, VmError> {
    if m.stack.len() < 3 {
        Err(VmError::StackUnderflow)
    } else {
        match (m.from_top(1), m.from_top(2)) {
            (Val::Vloc(pc), Val::Vloc(fp)) => {
                let below = m.stack.len() - 3;
                let kept = if m.fp < below {
                    m.fp as int
                } else {
                    below
                };
                Ok(Machine { pc, fp, stack: m.stack.take(kept).push(m.from_top(0)), ..m })
            },
            _ => Err(VmError::CorruptFrame),
        }
    }
}

/// Takes a target (top) and a condition off the stack and jumps to the
/// target where the condition holds.
pub open spec fn branch_step(m: Machine) -> Result<Machine, VmError> {
    if m.stack.len() < 2 {
        Err(VmError::StackUnderflow)
    } else {
        match (m.from_top(0), m.from_top(1)) {
            (Val::Vloc(target), Val::Vbool(taken)) => Ok(
                Machine {
                    pc: if taken {
                        target
                    } else {
                        m.pc
                    },
                    ..m.replace_top(2, seq![])
                },
            ),
            _ => Err(VmError::TypeMismatch),
        }
    }
}

/// The machine after `m` has pushed `v`, where the stack has room.
pub open spec fn push_step(m: Machine, v: Val) -> Result<Machine, VmError> {
    if m.stack.len() >= STACK_SIZE {
        Err(VmError::StackOverflow)
    } else {
        Ok(m.replace_top(0, seq![v]))
    }
}

/// Pushes a copy of the stack slot at `at`.
pub open spec fn copy_step(m: Machine, at: int) -> Result<Machine, VmError> {
    if at >= m.stack.len() {
        Err(VmError::IndexOutOfBounds)
    } else {
        push_step(m, m.stack[at])
    }
}

/// Pops the top of the stack into the slot `offset` above the frame
/// pointer, which must be a slot of the stack that is left.
pub open spec fn store_step(m: Machine, offset: u32) -> Result<Machine, VmError> {
    if m.stack.len() < 1 {
        Err(VmError::StackUnderflow)
    } else if m.fp + offset >= m.stack.len() - 1 {
        Err(VmError::IndexOutOfBounds)
    } else {
        Ok(Machine { stack: m.stack.drop_last().update(m.fp + offset, m.from_top(0)), ..m })
    }
}

/// Pushes the frame pointer and opens a frame whose first slot lies `count`
/// slots below the one just pushed.
pub open spec fn set_frame_step(m: Machine, count: u32) -> Result<Machine, VmError> {
    if m.stack.len() >= STACK_SIZE {
        Err(VmError::StackOverflow)
    } else if count > m.stack.len() {
        Err(VmError::IndexOutOfBounds)
    } else {
        Ok(
            Machine {
                fp: (m.stack.len() - count) as u32,
                ..m.replace_top(0, seq![Val::Vloc(m.fp)])
            },
        )
    }
}

/// Takes a target off the stack, leaves the program counter in its place
/// and jumps to the target.
pub open spec fn call_step(m: Machine) -> Result<Machine, VmError> {
    if m.stack.len() < 1 {
        Err(VmError::StackUnderflow)
    } else {
        match m.from_top(0) {
            Val::Vloc(target) => Ok(Machine { pc: target, ..m.replace_top(1, seq![Val::Vloc(m.pc)]) }),
            _ => Err(VmError::TypeMismatch),
        }
    }
}

/// What instruction `i` does to machine `m`, whose program counter is
/// already past `i`.
pub open spec fn instr_step(i: Instr, m: Machine) -> Result<Machine, VmError> {
    match i {
        Instr::Push(v) => push_step(m, v),
        Instr::Pop => if m.stack.len() < 1 {
            Err(VmError::StackUnderflow)
        } else {
            Ok(m.replace_top(1, seq![]))
        },
        Instr::Peek(at) => copy_step(m, at as int),
        Instr::Unary(_) => unary_step(m),
        Instr::Binary(op) => binary_step(op, m),
        Instr::Swap => if m.stack.len() < 2 {
            Err(VmError::StackUnderflow)
        } else {
            Ok(m.replace_top(2, seq![m.from_top(0), m.from_top(1)]))
        },
        Instr::Alloc => alloc_step(m),
        Instr::Put => set_step(m),
        Instr::Get => get_step(m),
        Instr::Var(offset) => copy_step(m, m.fp + offset),
        Instr::Store(offset) => store_step(m, offset),
        Instr::SetFrame(count) => set_frame_step(m, count),
        Instr::Call => call_step(m),
        Instr::Ret => ret_step(m),
        Instr::Branch => branch_step(m),
        Instr::Halt => Ok(Machine { halt: true, ..m }),
    }
}

/// One cycle: a halted machine stays as it is; a running one fetches the
/// instruction at its program counter, moves the counter on and performs
/// the instruction.
pub open spec fn cycle(m: Machine) -> Result<Machine, VmError> {
    if m.halt {
        Ok(m)
    } else if m.pc >= m.program.len() || m.pc == u32::MAX {
        Err(VmError::PcOutOfBounds)
    } else {
        instr_step(m.program[m.pc as int], Machine { pc: (m.pc + 1) as u32, ..m })
    }
}

/// The machine after at most `cycles` cycles, and the fatal condition that
/// stopped it, if one did. A machine that fails stays as it was before the
/// cycle that failed.
pub open spec fn run(m: Machine, cycles: nat) -> (Machine, Option<VmError>)
    decreases cycles,
{
    if m.halt || cycles == 0 {
        (m, None)
    } else {
        match cycle(m) {
            Ok(next) => run(next, (cycles - 1) as nat),
            Err(e) => (m, Some(e)),
        }
    }
}

} // verus!
