//! What holds of the machine in every state, proved from the semantics that
//! the evaluator is verified against.
use crate::error::VmError;
use crate::semantics::{
    alloc_step, binary_step, call_step, cycle, get_step, instr_step, magnitude, push_step,
    quotient_toward_zero, ret_step, run, set_frame_step, set_step,
};
use crate::state::{Machine, HEAP_SIZE, STACK_SIZE};
use crate::value::{Address, Binop, Instr, Val};
use vstd::arithmetic::div_mod::{
    lemma_div_decreases, lemma_div_nonincreasing, lemma_div_pos_is_pos, lemma_fundamental_div_mod,
    lemma_mod_pos_bound,
};
use vstd::prelude::*;

verus! {

/// `q` is `a` divided by `b` and rounded toward zero: what is left over is
/// smaller than the divisor and, unless it is zero, has the sign of `a`.
pub open spec fn rounds_toward_zero(a: int, b: int, q: int) -> bool {
    let left_over = a - q * b;
    magnitude(left_over) < magnitude(b) && (left_over == 0 || (left_over < 0) == (a < 0))
}

/// The quotient that the machine computes is the one rounded toward zero.
pub proof fn quotient_rounds_toward_zero(a: int, b: int)
    requires
        b != 0,
    ensures
        rounds_toward_zero(a, b, quotient_toward_zero(a, b)),
{
    let big_a = magnitude(a);
    let big_b = magnitude(b);
    let big_q = big_a / big_b;
    let big_r = big_a % big_b;
    lemma_fundamental_div_mod(big_a, big_b);
    lemma_mod_pos_bound(big_a, big_b);
    let q = quotient_toward_zero(a, b);
    assert(a - q * b == (if a < 0 {
        -big_r
    } else {
        big_r
    })) by (nonlinear_arith)
        requires
            big_a == big_b * big_q + big_r,
            big_a == (if a < 0 {
                -a
            } else {
                a
            }),
            big_b == (if b < 0 {
                -b
            } else {
                b
            }),
            q == (if (a < 0) == (b < 0) {
                big_q
            } else {
                -big_q
            }),
    ;
}

/// Division divides the top of the stack by the slot below it. Where both
/// are integers and the divisor is not zero, it puts the quotient rounded
/// toward zero in their place. The one pair left out is the least integer
/// divided by -1, whose quotient is no 32-bit integer.
pub proof fn division_rounds_toward_zero(m: Machine, a: i32, b: i32)
    requires
        m.stack.len() >= 2,
        m.from_top(0) == Val::Vi32(a),
        m.from_top(1) == Val::Vi32(b),
        b != 0,
        !(a == i32::MIN && b == -1),
    ensures
        ({
            let q = quotient_toward_zero(a as int, b as int);
            &&& rounds_toward_zero(a as int, b as int, q)
            &&& i32::MIN <= q <= i32::MAX
            &&& binary_step(Binop::Div, m) == Ok::<Machine, VmError>(
                m.replace_top(2, seq![Val::Vi32(q as i32)]),
            )
        }),
{
    quotient_rounds_toward_zero(a as int, b as int);
    let big_a = magnitude(a as int);
    let big_b = magnitude(b as int);
    lemma_div_pos_is_pos(big_a, big_b);
    lemma_div_nonincreasing(big_a, big_b);
    if big_a > 0 && big_b > 1 {
        lemma_div_decreases(big_a, big_b);
    }
}

/// Division by zero fails, whatever integer is divided, and produces no
/// value.
pub proof fn division_by_zero_fails(m: Machine, a: i32)
    requires
        m.stack.len() >= 2,
        m.from_top(0) == Val::Vi32(a),
        m.from_top(1) == Val::Vi32(0),
    ensures
        binary_step(Binop::Div, m) == Err::<Machine, VmError>(VmError::DivideByZero),
{
}

/// Every element of a fresh block reads as the fill value: after an
/// allocation of `count` copies of `fill`, pushing an index below `count`
/// and reading gives `fill`.
pub proof fn alloc_then_get(m: Machine, count: i32, fill: Val, index: i32)
    requires
        m.within_caps(),
        m.stack.len() >= 2,
        m.from_top(0) == fill,
        m.from_top(1) == Val::Vi32(count),
        0 <= index < count,
        m.heap.len() + 1 + count <= HEAP_SIZE,
    ensures
        ({
            let allocated = alloc_step(m);
            let indexed = push_step(allocated->Ok_0, Val::Vi32(index));
            &&& allocated is Ok
            &&& indexed is Ok
            &&& get_step(indexed->Ok_0) == Ok::<Machine, VmError>(
                Machine { heap: allocated->Ok_0.heap, ..m.replace_top(2, seq![fill]) },
            )
        }),
{
    let allocated = alloc_step(m)->Ok_0;
    let indexed = push_step(allocated, Val::Vi32(index))->Ok_0;
    let base = m.heap.len() as Address;
    assert(indexed.from_top(1) == Val::Vaddr(base));
    assert(allocated.heap[base as int] == Val::Vsize(count));
    assert(allocated.heap[base + 1 + index] == fill);
    assert(indexed.replace_top(2, seq![fill]) =~= (Machine {
        heap: allocated.heap,
        ..m.replace_top(2, seq![fill])
    }));
}

/// What was written is read back: after a write of `w` at `index` of the
/// block at `base`, a read at the same index of the same block gives `w`.
pub proof fn set_then_get(m: Machine, base: Address, index: i32, w: Val)
    requires
        m.stack.len() >= 3,
        m.from_top(0) == w,
        m.from_top(1) == Val::Vi32(index),
        m.from_top(2) == Val::Vaddr(base),
        set_step(m) is Ok,
    ensures
        ({
            let written = set_step(m)->Ok_0;
            let asked = written.replace_top(0, seq![Val::Vaddr(base), Val::Vi32(index)]);
            get_step(asked) == Ok::<Machine, VmError>(written.replace_top(0, seq![w]))
        }),
{
    let written = set_step(m)->Ok_0;
    let asked = written.replace_top(0, seq![Val::Vaddr(base), Val::Vi32(index)]);
    assert(asked.from_top(0) == Val::Vi32(index));
    assert(asked.from_top(1) == Val::Vaddr(base));
    assert(asked.replace_top(2, seq![w]) =~= written.replace_top(0, seq![w]));
}

/// The stack of a callee that is about to return to the caller of `callee`:
/// the caller's slots are untouched, the frame pointer is the callee's, and
/// below the return value lie copies of the two slots that the call left in
/// the frame, the return address above the saved frame pointer.
pub open spec fn ready_to_return(callee: Machine, args: nat, at_return: Machine) -> bool {
    &&& at_return.fp == callee.fp
    &&& at_return.stack.len() >= callee.fp + 3
    &&& at_return.stack.take(callee.fp as int) == callee.stack.take(callee.fp as int)
    &&& at_return.from_top(1) == callee.stack[callee.fp + args]
    &&& at_return.from_top(2) == callee.stack[callee.fp + args + 1]
}

/// A call and its return. The caller pushes its arguments and the target
/// and calls; the callee opens a frame over the arguments and the return
/// address. When the callee returns from that frame, program counter and
/// frame pointer are what they were at the call, and the stack is what it
/// was below the arguments, with the return value on top.
pub proof fn call_then_return_restores(
    m: Machine,
    below: Seq<Val>,
    args: Seq<Val>,
    target: u32,
    at_return: Machine,
)
    requires
        m.stack == below + args + seq![Val::Vloc(target)],
        below.len() + args.len() + 2 <= STACK_SIZE,
    ensures
        ({
            let called = call_step(m);
            let framed = set_frame_step(called->Ok_0, (args.len() + 1) as u32);
            let callee = framed->Ok_0;
            let back = ret_step(at_return);
            &&& called is Ok
            &&& framed is Ok
            &&& callee.pc == target
            &&& callee.fp == below.len()
            &&& callee.stack == below + args + seq![Val::Vloc(m.pc), Val::Vloc(m.fp)]
            &&& ready_to_return(callee, args.len(), at_return) ==> {
                &&& back is Ok
                &&& back->Ok_0.pc == m.pc
                &&& back->Ok_0.fp == m.fp
                &&& back->Ok_0.stack == below.push(at_return.from_top(0))
                &&& back->Ok_0.heap == at_return.heap
            }
        }),
{
    let called = call_step(m)->Ok_0;
    assert(m.from_top(0) == Val::Vloc(target));
    assert(called.stack =~= below + args + seq![Val::Vloc(m.pc)]);
    let callee = set_frame_step(called, (args.len() + 1) as u32)->Ok_0;
    assert(callee.stack =~= below + args + seq![Val::Vloc(m.pc), Val::Vloc(m.fp)]);
    if ready_to_return(callee, args.len(), at_return) {
        assert(callee.stack[callee.fp + args.len()] == Val::Vloc(m.pc));
        assert(callee.stack[callee.fp + args.len() + 1] == Val::Vloc(m.fp));
        assert(callee.stack.take(callee.fp as int) =~= below);
        let back = ret_step(at_return)->Ok_0;
        assert(back.stack =~= below.push(at_return.from_top(0)));
    }
}

/// A peek succeeds exactly where the index names a slot and the stack has
/// room. It changes nothing but the stack, leaves every slot that was there
/// as it was, the peeked one too, and puts a copy of the peeked slot on
/// top.
pub proof fn peek_keeps_stack(m: Machine, at: u32)
    ensures
        instr_step(Instr::Peek(at), m) is Ok <==> at < m.stack.len() < STACK_SIZE,
        instr_step(Instr::Peek(at), m) matches Ok(after) ==> {
            &&& after == Machine { stack: after.stack, ..m }
            &&& after.stack.len() == m.stack.len() + 1
            &&& after.stack.take(m.stack.len() as int) == m.stack
            &&& after.stack[at as int] == m.stack[at as int]
            &&& after.stack.last() == m.stack[at as int]
        },
{
    if instr_step(Instr::Peek(at), m) is Ok {
        let after = instr_step(Instr::Peek(at), m)->Ok_0;
        assert(after.stack.take(m.stack.len() as int) =~= m.stack);
    }
}

/// No instruction takes stack or heap over their caps, shrinks the heap or
/// touches the program.
pub proof fn instr_keeps_caps(i: Instr, m: Machine)
    requires
        m.within_caps(),
        instr_step(i, m) is Ok,
    ensures
        ({
            let after = instr_step(i, m)->Ok_0;
            &&& after.within_caps()
            &&& after.heap.len() >= m.heap.len()
            &&& after.program == m.program
        }),
{
}

/// A cycle fetches only inside the program, and keeps what
/// [`instr_keeps_caps`] says an instruction keeps.
pub proof fn cycle_keeps_caps(m: Machine)
    requires
        m.within_caps(),
    ensures
        !m.halt && m.pc >= m.program.len() ==> cycle(m) == Err::<Machine, VmError>(
            VmError::PcOutOfBounds,
        ),
        cycle(m) matches Ok(after) ==> {
            &&& after.within_caps()
            &&& after.heap.len() >= m.heap.len()
            &&& after.program == m.program
        },
{
    if !m.halt && cycle(m) is Ok {
        instr_keeps_caps(m.program[m.pc as int], Machine { pc: (m.pc + 1) as u32, ..m });
    }
}

/// However long a machine runs, stack and heap stay within their caps, the
/// heap does not shrink and the program stays the same. A run that fails
/// ends in a state on which the next cycle fails with that condition.
pub proof fn run_keeps_caps(m: Machine, cycles: nat)
    requires
        m.within_caps(),
    ensures
        ({
            let (after, failure) = run(m, cycles);
            &&& after.within_caps()
            &&& after.heap.len() >= m.heap.len()
            &&& after.program == m.program
            &&& failure matches Some(e) ==> !after.halt && cycle(after) == Err::<Machine, VmError>(
                e,
            )
        }),
    decreases cycles,
{
    if !m.halt && cycles > 0 {
        cycle_keeps_caps(m);
        if cycle(m) is Ok {
            run_keeps_caps(cycle(m)->Ok_0, (cycles - 1) as nat);
        }
    }
}

} // verus!
