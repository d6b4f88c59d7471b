//! The evaluator: the executable machine, proved against the semantics.
//!
//! Every function checks all it needs before it changes anything, so a
//! state that an instruction fails on is left exactly as it was.
use crate::error::VmError;
use crate::heap::{instr_keeps_wf, plain};
use crate::semantics::{
    alloc_step, binary_step, binop_value, block, branch_step, copy_step, cycle, get_step,
    heap_slot, instr_step, push_step, ret_step, run, set_step, unary_step,
};
use crate::state::{Machine, State, HEAP_SIZE, STACK_SIZE};
use crate::value::{Address, Binop, Instr, Val};
use vstd::prelude::*;

verus! {

/// Computes `first op second`.
pub fn apply_binop(op: Binop, first: i32, second: i32) -> (r: Result<Val, VmError>)
    ensures
        r == binop_value(op, first, second),
{
    match op {
        Binop::Add => Ok(Val::Vi32(first.wrapping_add(second))),
        Binop::Sub => Ok(Val::Vi32(first.wrapping_sub(second))),
        Binop::Mul => Ok(Val::Vi32(first.wrapping_mul(second))),
        Binop::Div => {
            if second == 0 {
                Err(VmError::DivideByZero)
            } else {
                match first.checked_div(second) {
                    Some(q) => Ok(Val::Vi32(q)),
                    None => Ok(Val::Vi32(i32::MIN)),
                }
            }
        },
        Binop::Lt => Ok(Val::Vbool(first < second)),
        Binop::Eq => Ok(Val::Vbool(first == second)),
    }
}

/// Negates the boolean on top of the stack.
pub fn eval_unary(s: &mut State) -> (r: Result<(), VmError>)
    ensures
        match r {
            Ok(()) => unary_step(old(s)@) == Ok::<Machine, VmError>(final(s)@),
            Err(e) => unary_step(old(s)@) == Err::<Machine, VmError>(e) && *final(s) == *old(s),
        },
{
    let depth: usize = s.stack.len();
    if depth < 1 {
        return Err(VmError::StackUnderflow);
    }
    match s.stack[depth - 1] {
        Val::Vbool(b) => {
            s.stack.truncate(depth - 1);
            s.stack.push(Val::Vbool(!b));
            proof {
                assert(s@ =~= old(s)@.replace_top(1, seq![Val::Vbool(!b)]));
            }
            Ok(())
        },
        _ => Err(VmError::TypeMismatch),
    }
}

/// Applies `b` to the two topmost slots, the top one first, and puts the
/// result in their place.
pub fn eval_binary(b: Binop, s: &mut State) -> (r: Result<(), VmError>)
    ensures
        match r {
            Ok(()) => binary_step(b, old(s)@) == Ok::<Machine, VmError>(final(s)@),
            Err(e) => binary_step(b, old(s)@) == Err::<Machine, VmError>(e) && *final(s) == *old(s),
        },
{
    let depth: usize = s.stack.len();
    if depth < 2 {
        return Err(VmError::StackUnderflow);
    }
    let first: i32 = match s.stack[depth - 1] {
        Val::Vi32(n) => n,
        _ => {
            return Err(VmError::TypeMismatch);
        },
    };
    let second: i32 = match s.stack[depth - 2] {
        Val::Vi32(n) => n,
        _ => {
            return Err(VmError::TypeMismatch);
        },
    };
    let value: Val = match apply_binop(b, first, second) {
        Ok(v) => v,
        Err(e) => {
            return Err(e);
        },
    };
    s.stack.truncate(depth - 2);
    s.stack.push(value);
    proof {
        assert(s@ =~= old(s)@.replace_top(2, seq![value]));
    }
    Ok(())
}

/// Takes the fill value (top) and the element count off the stack, appends
/// a block of that many copies to the heap and pushes the block's address.
pub fn eval_alloc(s: &mut State) -> (r: Result<(), VmError>)
    ensures
        match r {
            Ok(()) => alloc_step(old(s)@) == Ok::<Machine, VmError>(final(s)@),
            Err(e) => alloc_step(old(s)@) == Err::<Machine, VmError>(e) && *final(s) == *old(s),
        },
{
    let depth: usize = s.stack.len();
    if depth < 2 {
        return Err(VmError::StackUnderflow);
    }
    let fill: Val = s.stack[depth - 1];
    let count: i32 = match s.stack[depth - 2] {
        Val::Vi32(n) => n,
        _ => {
            return Err(VmError::TypeMismatch);
        },
    };
    if count < 0 {
        return Err(VmError::InvalidSize);
    }
    let base: usize = s.heap.len();
    if base >= HEAP_SIZE || count as usize > HEAP_SIZE - 1 - base {
        return Err(VmError::HeapOverflow);
    }
    let ghost before = s@;
    s.heap.push(Val::Vsize(count));
    let mut filled: i32 = 0;
    while filled < count
        invariant
            0 <= filled <= count,
            s@ == (Machine {
                heap: before.heap + (seq![Val::Vsize(count)] + Seq::new(
                    filled as nat,
                    |i: int| fill,
                )),
                ..before
            }),
        decreases count - filled,
    {
        s.heap.push(fill);
        filled = filled + 1;
    }
    s.stack.truncate(depth - 2);
    s.stack.push(Val::Vaddr(base));
    proof {
        assert(s@ =~= (Machine {
            heap: before.heap + block(count, fill),
            ..before.replace_top(2, seq![Val::Vaddr(base)])
        }));
    }
    Ok(())
}

/// Finds the heap position of element `index` of the block at `base`.
pub fn locate(heap: &Vec<Val>, base: Address, index: i32) -> (r: Option<usize>)
    ensures
        match r {
            Some(at) => heap_slot(heap@, base, index) == Some(at as int),
            None => heap_slot(heap@, base, index) is None,
        },
{
    if base >= heap.len() {
        return None;
    }
    match heap[base] {
        Val::Vsize(count) => {
            if index < 0 || index >= count {
                None
            } else {
                let offset: usize = index as usize;
                if offset < heap.len() - base - 1 {
                    Some(base + 1 + offset)
                } else {
                    None
                }
            }
        },
        _ => None,
    }
}

/// Takes a value (top), an index and a block address off the stack and
/// writes the value into the block.
pub fn eval_set(s: &mut State) -> (r: Result<(), VmError>)
    ensures
        match r {
            Ok(()) => set_step(old(s)@) == Ok::<Machine, VmError>(final(s)@),
            Err(e) => set_step(old(s)@) == Err::<Machine, VmError>(e) && *final(s) == *old(s),
        },
{
    let depth: usize = s.stack.len();
    if depth < 3 {
        return Err(VmError::StackUnderflow);
    }
    let value: Val = s.stack[depth - 1];
    let (index, base): (i32, Address) = match (s.stack[depth - 2], s.stack[depth - 3]) {
        (Val::Vi32(index), Val::Vaddr(base)) => (index, base),
        _ => {
            return Err(VmError::TypeMismatch);
        },
    };
    let at: usize = match locate(&s.heap, base, index) {
        Some(at) => at,
        None => {
            return Err(VmError::IndexOutOfBounds);
        },
    };
    s.heap.set(at, value);
    s.stack.truncate(depth - 3);
    proof {
        assert(s@ =~= (Machine {
            heap: old(s)@.heap.update(at as int, value),
            ..old(s)@.replace_top(3, seq![])
        }));
    }
    Ok(())
}

/// Takes an index (top) and a block address off the stack and pushes the
/// block's element.
pub fn eval_get(s: &mut State) -> (r: Result<(), VmError>)
    ensures
        match r {
            Ok(()) => get_step(old(s)@) == Ok::<Machine, VmError>(final(s)@),
            Err(e) => get_step(old(s)@) == Err::<Machine, VmError>(e) && *final(s) == *old(s),
        },
{
    let depth: usize = s.stack.len();
    if depth < 2 {
        return Err(VmError::StackUnderflow);
    }
    let (index, base): (i32, Address) = match (s.stack[depth - 1], s.stack[depth - 2]) {
        (Val::Vi32(index), Val::Vaddr(base)) => (index, base),
        _ => {
            return Err(VmError::TypeMismatch);
        },
    };
    let at: usize = match locate(&s.heap, base, index) {
        Some(at) => at,
        None => {
            return Err(VmError::IndexOutOfBounds);
        },
    };
    let found: Val = s.heap[at];
    s.stack.truncate(depth - 2);
    s.stack.push(found);
    proof {
        assert(s@ =~= old(s)@.replace_top(2, seq![found]));
    }
    Ok(())
}

/// Leaves a frame: drops the return value, the two saved slots below it and
/// every slot from the frame pointer upward, restores program counter and
/// frame pointer from the saved slots and pushes the return value.
pub fn eval_ret(s: &mut State) -> (r: Result<(), VmError>)
    ensures
        match r {
            Ok(()) => ret_step(old(s)@) == Ok::<Machine, VmError>(final(s)@),
            Err(e) => ret_step(old(s)@) == Err::<Machine, VmError>(e) && *final(s) == *old(s),
        },
{
    let depth: usize = s.stack.len();
    if depth < 3 {
        return Err(VmError::StackUnderflow);
    }
    let value: Val = s.stack[depth - 1];
    let (caller_pc, caller_fp): (u32, u32) = match (s.stack[depth - 2], s.stack[depth - 3]) {
        (Val::Vloc(pc), Val::Vloc(fp)) => (pc, fp),
        _ => {
            return Err(VmError::CorruptFrame);
        },
    };
    let below: usize = depth - 3;
    let kept: usize = if (s.fp as usize) < below {
        s.fp as usize
    } else {
        below
    };
    s.stack.truncate(kept);
    s.stack.push(value);
    s.fp = caller_fp;
    s.pc = caller_pc;
    Ok(())
}

/// Takes a target (top) and a condition off the stack and jumps to the
/// target where the condition holds.
pub fn eval_branch(s: &mut State) -> (r: Result<(), VmError>)
    ensures
        match r {
            Ok(()) => branch_step(old(s)@) == Ok::<Machine, VmError>(final(s)@),
            Err(e) => branch_step(old(s)@) == Err::<Machine, VmError>(e) && *final(s) == *old(s),
        },
{
    let depth: usize = s.stack.len();
    if depth < 2 {
        return Err(VmError::StackUnderflow);
    }
    match (s.stack[depth - 1], s.stack[depth - 2]) {
        (Val::Vloc(target), Val::Vbool(taken)) => {
            s.stack.truncate(depth - 2);
            if taken {
                s.pc = target;
            }
            proof {
                assert(s@.stack =~= old(s)@.replace_top(2, seq![]).stack);
            }
            Ok(())
        },
        _ => Err(VmError::TypeMismatch),
    }
}

/// Pushes `v`, where the stack has room.
pub fn push_value(s: &mut State, v: Val) -> (r: Result<(), VmError>)
    ensures
        match r {
            Ok(()) => push_step(old(s)@, v) == Ok::<Machine, VmError>(final(s)@),
            Err(e) => push_step(old(s)@, v) == Err::<Machine, VmError>(e) && *final(s) == *old(s),
        },
{
    if s.stack.len() >= STACK_SIZE {
        return Err(VmError::StackOverflow);
    }
    s.stack.push(v);
    proof {
        assert(s@ =~= old(s)@.replace_top(0, seq![v]));
    }
    Ok(())
}

/// Pushes a copy of the stack slot at `at`.
pub fn push_copy(s: &mut State, at: u64) -> (r: Result<(), VmError>)
    ensures
        match r {
            Ok(()) => copy_step(old(s)@, at as int) == Ok::<Machine, VmError>(final(s)@),
            Err(e) => copy_step(old(s)@, at as int) == Err::<Machine, VmError>(e) && *final(s)
                == *old(s),
        },
{
    if at >= s.stack.len() as u64 {
        return Err(VmError::IndexOutOfBounds);
    }
    let v: Val = s.stack[at as usize];
    push_value(s, v)
}

/// Performs instruction `i` on a state whose program counter is already
/// past `i`.
pub fn evaluate(i: Instr, s: &mut State) -> (r: Result<(), VmError>)
    ensures
        match r {
            Ok(()) => instr_step(i, old(s)@) == Ok::<Machine, VmError>(final(s)@),
            Err(e) => instr_step(i, old(s)@) == Err::<Machine, VmError>(e) && *final(s) == *old(s),
        },
        old(s)@.wf() && plain(i) ==> final(s)@.wf(),
{
    proof {
        if old(s)@.wf() && plain(i) && instr_step(i, old(s)@) is Ok {
            instr_keeps_wf(i, old(s)@);
        }
    }
    let depth: usize = s.stack.len();
    match i {
        Instr::Push(v) => push_value(s, v),
        Instr::Pop => {
            if depth < 1 {
                return Err(VmError::StackUnderflow);
            }
            s.stack.truncate(depth - 1);
            proof {
                assert(s@ =~= old(s)@.replace_top(1, seq![]));
            }
            Ok(())
        },
        Instr::Peek(at) => push_copy(s, at as u64),
        Instr::Unary(_) => eval_unary(s),
        Instr::Binary(op) => eval_binary(op, s),
        Instr::Swap => {
            if depth < 2 {
                return Err(VmError::StackUnderflow);
            }
            let top: Val = s.stack[depth - 1];
            let second: Val = s.stack[depth - 2];
            s.stack.set(depth - 2, top);
            s.stack.set(depth - 1, second);
            proof {
                assert(s@ =~= old(s)@.replace_top(2, seq![top, second]));
            }
            Ok(())
        },
        Instr::Alloc => eval_alloc(s),
        Instr::Put => eval_set(s),
        Instr::Get => eval_get(s),
        Instr::Var(offset) => push_copy(s, s.fp as u64 + offset as u64),
        Instr::Store(offset) => {
            if depth < 1 {
                return Err(VmError::StackUnderflow);
            }
            let at: u64 = s.fp as u64 + offset as u64;
            if at >= (depth - 1) as u64 {
                return Err(VmError::IndexOutOfBounds);
            }
            let top: Val = s.stack[depth - 1];
            s.stack.truncate(depth - 1);
            s.stack.set(at as usize, top);
            Ok(())
        },
        Instr::SetFrame(count) => {
            if depth >= STACK_SIZE {
                return Err(VmError::StackOverflow);
            }
            if count as usize > depth {
                return Err(VmError::IndexOutOfBounds);
            }
            s.stack.push(Val::Vloc(s.fp));
            s.fp = (depth - count as usize) as u32;
            proof {
                assert(s@ =~= (Machine {
                    fp: (depth - count) as u32,
                    ..old(s)@.replace_top(0, seq![Val::Vloc(old(s).fp)])
                }));
            }
            Ok(())
        },
        Instr::Call => {
            if depth < 1 {
                return Err(VmError::StackUnderflow);
            }
            match s.stack[depth - 1] {
                Val::Vloc(target) => {
                    s.stack.set(depth - 1, Val::Vloc(s.pc));
                    s.pc = target;
                    proof {
                        assert(s@ =~= (Machine {
                            pc: target,
                            ..old(s)@.replace_top(1, seq![Val::Vloc(old(s).pc)])
                        }));
                    }
                    Ok(())
                },
                _ => Err(VmError::TypeMismatch),
            }
        },
        Instr::Ret => eval_ret(s),
        Instr::Branch => eval_branch(s),
        Instr::Halt => {
            s.halt = true;
            Ok(())
        },
    }
}

/// Runs one cycle. A halted machine is left alone. A cycle that fails
/// leaves the state as it was, its program counter at the instruction that
/// failed.
pub fn step(s: &mut State) -> (r: Result<(), VmError>)
    ensures
        match r {
            Ok(()) => cycle(old(s)@) == Ok::<Machine, VmError>(final(s)@),
            Err(e) => cycle(old(s)@) == Err::<Machine, VmError>(e) && *final(s) == *old(s),
        },
        old(s)@.wf() ==> final(s)@.wf(),
{
    if s.halt {
        return Ok(());
    }
    let pc: u32 = s.pc;
    if pc as usize >= s.program.len() || pc == u32::MAX {
        return Err(VmError::PcOutOfBounds);
    }
    let i: Instr = s.program[pc as usize];
    s.pc = pc + 1;
    match evaluate(i, s) {
        Ok(()) => Ok(()),
        Err(e) => {
            s.pc = pc;
            Err(e)
        },
    }
}

/// Runs cycles until the machine halts, a cycle fails or `cycles` of them
/// are done. Whether the machine halted shows in its `halt` flag.
pub fn exec(s: &mut State, cycles: u64) -> (r: Result<(), VmError>)
    ensures
        run(old(s)@, cycles as nat) == (
            final(s)@,
            match r {
                Ok(()) => None::<VmError>,
                Err(e) => Some(e),
            },
        ),
        old(s)@.wf() ==> final(s)@.wf(),
{
    let mut left: u64 = cycles;
    while left > 0 && !s.halt
        invariant
            run(old(s)@, cycles as nat) == run(s@, left as nat),
            old(s)@.wf() ==> s@.wf(),
        decreases left,
    {
        match step(s) {
            Ok(()) => {},
            Err(e) => {
                proof {
                    assert(run(s@, left as nat) == (s@, Some(e)));
                }
                return Err(e);
            },
        }
        left = left - 1;
    }
    Ok(())
}

} // verus!
