//! The heap as a row of blocks, and the states in which every heap address
//! names a block.
//!
//! The evaluator checks every heap access when it runs and needs none of
//! this. What is proved here is that on a machine that started empty those
//! checks guard whole blocks: size slots are written by allocation alone,
//! and an address on the stack or in the heap is always that of a size slot.
use crate::error::VmError;
use crate::semantics::{block, cycle, get_step, heap_slot, instr_step, run};
use crate::state::Machine;
use crate::value::{Instr, Val};
use crate::wire::{fromBinary, parse_instrs, parse_program};
use vstd::prelude::*;

verus! {

/// Hopping from size slot to size slot, each hop over one block, leads from
/// position `from` to position `to` and not past it.
pub open spec fn boundary(heap: Seq<Val>, from: int, to: int) -> bool
    decreases to - from,
{
    if from >= to {
        from == to
    } else if from < 0 || from >= heap.len() {
        false
    } else {
        match heap[from] {
            Val::Vsize(n) => if n >= 0 && from + 1 + n <= to {
                boundary(heap, from + 1 + n, to)
            } else {
                false
            },
            _ => false,
        }
    }
}

/// The heap is blocks laid end to end, with nothing besides.
pub open spec fn tiled(heap: Seq<Val>) -> bool {
    boundary(heap, 0, heap.len() as int)
}

/// `at` is the size slot of a block of the heap.
pub open spec fn is_block(heap: Seq<Val>, at: int) -> bool {
    0 <= at < heap.len() && boundary(heap, 0, at)
}

/// If `v` is a heap address, it names a block.
pub open spec fn sound(heap: Seq<Val>, v: Val) -> bool {
    v matches Val::Vaddr(a) ==> is_block(heap, a as int)
}

/// The instruction pushes no heap address of its own making.
pub open spec fn plain(i: Instr) -> bool {
    i matches Instr::Push(v) ==> !(v is Vaddr)
}

impl Machine {
    /// Stack and heap are within their caps, the heap is blocks laid end to
    /// end, every heap address in the stack or the heap names a block, and
    /// the program pushes no heap address of its own making.
    pub open spec fn wf(self) -> bool {
        &&& self.within_caps()
        &&& tiled(self.heap)
        &&& forall|k: int| 0 <= k < self.stack.len() ==> sound(self.heap, #[trigger] self.stack[k])
        &&& forall|k: int| 0 <= k < self.heap.len() ==> sound(self.heap, #[trigger] self.heap[k])
        &&& forall|k: int| 0 <= k < self.program.len() ==> plain(#[trigger] self.program[k])
    }
}

/// Hops that stay inside the heap are not changed by what is appended.
pub proof fn boundary_survives_append(heap: Seq<Val>, more: Seq<Val>, from: int, to: int)
    requires
        boundary(heap, from, to),
        to <= heap.len(),
    ensures
        boundary(heap + more, from, to),
    decreases to - from,
{
    if from < to {
        assert((heap + more)[from] == heap[from]);
        let n = heap[from]->Vsize_0;
        boundary_survives_append(heap, more, from + 1 + n, to);
    }
}

/// Hops can be joined.
pub proof fn boundary_joins(heap: Seq<Val>, from: int, mid: int, to: int)
    requires
        boundary(heap, from, mid),
        boundary(heap, mid, to),
    ensures
        boundary(heap, from, to),
    decreases mid - from,
{
    if from < mid {
        let n = heap[from]->Vsize_0;
        boundary_joins(heap, from + 1 + n, mid, to);
    }
}

/// In a tiled heap a block's size slot holds a size that is not negative,
/// the block ends inside the heap, and the next block, or the end of the
/// heap, follows it directly.
pub proof fn block_fits(heap: Seq<Val>, from: int, at: int)
    requires
        boundary(heap, from, at),
        boundary(heap, from, heap.len() as int),
        at < heap.len(),
    ensures
        heap[at] is Vsize,
        heap[at]->Vsize_0 >= 0,
        at + 1 + heap[at]->Vsize_0 <= heap.len(),
        boundary(heap, at + 1 + heap[at]->Vsize_0, heap.len() as int),
    decreases at - from,
{
    if from < at {
        let n = heap[from]->Vsize_0;
        block_fits(heap, from + 1 + n, at);
    }
}

/// A write into the payload of the block at `start` changes no hop.
pub proof fn boundary_survives_write(
    heap: Seq<Val>,
    start: int,
    at: int,
    v: Val,
    from: int,
    to: int,
)
    requires
        0 <= start < heap.len(),
        heap[start] is Vsize,
        start < at <= start + heap[start]->Vsize_0,
        at < heap.len(),
        boundary(heap, from, to),
        (from <= start && boundary(heap, from, start)) || from >= start + 1 + heap[start]->Vsize_0,
    ensures
        boundary(heap.update(at, v), from, to),
    decreases to - from,
{
    if from < to {
        let n = heap[from]->Vsize_0;
        assert(from != at);
        assert(heap.update(at, v)[from] == heap[from]);
        boundary_survives_write(heap, start, at, v, from + 1 + n, to);
    }
}

/// An allocation keeps the heap tiled, keeps every block a block and makes
/// the position where the new block starts a block.
pub proof fn append_keeps_blocks(heap: Seq<Val>, count: i32, fill: Val)
    requires
        tiled(heap),
        count >= 0,
    ensures
        tiled(heap + block(count, fill)),
        is_block(heap + block(count, fill), heap.len() as int),
        forall|a: int| is_block(heap, a) ==> #[trigger] is_block(heap + block(count, fill), a),
{
    let more = block(count, fill);
    let grown = heap + more;
    let end = heap.len() as int;
    boundary_survives_append(heap, more, 0, end);
    assert(grown[end] == Val::Vsize(count));
    assert(boundary(grown, end + 1 + count, grown.len() as int));
    assert(boundary(grown, end, grown.len() as int));
    boundary_joins(grown, 0, end, grown.len() as int);
    assert forall|a: int| is_block(heap, a) implies #[trigger] is_block(grown, a) by {
        boundary_survives_append(heap, more, 0, a);
    }
}

/// A write through an address that names a block keeps the heap tiled and
/// keeps every block a block.
pub proof fn write_keeps_blocks(heap: Seq<Val>, base: usize, index: i32, v: Val)
    requires
        tiled(heap),
        is_block(heap, base as int),
        heap_slot(heap, base, index) is Some,
    ensures
        tiled(heap.update(heap_slot(heap, base, index)->0, v)),
        forall|a: int|
            is_block(heap, a) ==> #[trigger] is_block(
                heap.update(heap_slot(heap, base, index)->0, v),
                a,
            ),
{
    let at = heap_slot(heap, base, index)->0;
    let written = heap.update(at, v);
    boundary_survives_write(heap, base as int, at, v, 0, heap.len() as int);
    assert forall|a: int| is_block(heap, a) implies #[trigger] is_block(written, a) by {
        boundary_survives_write(heap, base as int, at, v, 0, a);
    }
}

/// Every instruction that the program could hold keeps a well-formed
/// machine well-formed.
pub proof fn instr_keeps_wf(i: Instr, m: Machine)
    requires
        m.wf(),
        plain(i),
        instr_step(i, m) is Ok,
    ensures
        instr_step(i, m)->Ok_0.wf(),
{
    let after = instr_step(i, m)->Ok_0;
    let depth = m.stack.len() as int;
    match i {
        Instr::Alloc => {
            let count = m.from_top(1)->Vi32_0;
            let fill = m.from_top(0);
            append_keeps_blocks(m.heap, count, fill);
            assert(sound(m.heap, fill));
            assert forall|k: int| 0 <= k < after.heap.len() implies sound(
                after.heap,
                #[trigger] after.heap[k],
            ) by {
                if k < m.heap.len() {
                    assert(after.heap[k] == m.heap[k]);
                    assert(sound(m.heap, m.heap[k]));
                } else if k > m.heap.len() {
                    assert(after.heap[k] == fill);
                }
            }
            assert forall|k: int| 0 <= k < after.stack.len() implies sound(
                after.heap,
                #[trigger] after.stack[k],
            ) by {
                if k < depth - 2 {
                    assert(after.stack[k] == m.stack[k]);
                    assert(sound(m.heap, m.stack[k]));
                }
            }
        },
        Instr::Put => {
            let base = m.from_top(2)->Vaddr_0;
            let index = m.from_top(1)->Vi32_0;
            let v = m.from_top(0);
            assert(sound(m.heap, m.stack[depth - 3]));
            assert(sound(m.heap, m.stack[depth - 1]));
            write_keeps_blocks(m.heap, base, index, v);
            assert forall|k: int| 0 <= k < after.heap.len() implies sound(
                after.heap,
                #[trigger] after.heap[k],
            ) by {
                if k != heap_slot(m.heap, base, index)->0 {
                    assert(after.heap[k] == m.heap[k]);
                    assert(sound(m.heap, m.heap[k]));
                }
            }
            assert forall|k: int| 0 <= k < after.stack.len() implies sound(
                after.heap,
                #[trigger] after.stack[k],
            ) by {
                assert(after.stack[k] == m.stack[k]);
                assert(sound(m.heap, m.stack[k]));
            }
        },
        Instr::Get => {
            let base = m.from_top(1)->Vaddr_0;
            let index = m.from_top(0)->Vi32_0;
            let at = heap_slot(m.heap, base, index)->0;
            assert(sound(m.heap, m.heap[at]));
            assert forall|k: int| 0 <= k < after.stack.len() implies sound(
                after.heap,
                #[trigger] after.stack[k],
            ) by {
                if k < depth - 2 {
                    assert(after.stack[k] == m.stack[k]);
                }
            }
        },
        Instr::Peek(at) => {
            assert(sound(m.heap, m.stack[at as int]));
            assert forall|k: int| 0 <= k < after.stack.len() implies sound(
                after.heap,
                #[trigger] after.stack[k],
            ) by {
                if k < depth {
                    assert(after.stack[k] == m.stack[k]);
                }
            }
        },
        Instr::Var(offset) => {
            assert(sound(m.heap, m.stack[m.fp + offset]));
            assert forall|k: int| 0 <= k < after.stack.len() implies sound(
                after.heap,
                #[trigger] after.stack[k],
            ) by {
                if k < depth {
                    assert(after.stack[k] == m.stack[k]);
                }
            }
        },
        Instr::Store(offset) => {
            assert(sound(m.heap, m.stack[depth - 1]));
            assert forall|k: int| 0 <= k < after.stack.len() implies sound(
                after.heap,
                #[trigger] after.stack[k],
            ) by {
                if k != m.fp + offset {
                    assert(after.stack[k] == m.stack[k]);
                }
            }
        },
        Instr::Swap => {
            assert(sound(m.heap, m.stack[depth - 1]));
            assert(sound(m.heap, m.stack[depth - 2]));
            assert forall|k: int| 0 <= k < after.stack.len() implies sound(
                after.heap,
                #[trigger] after.stack[k],
            ) by {
                if k < depth - 2 {
                    assert(after.stack[k] == m.stack[k]);
                }
            }
        },
        Instr::Ret => {
            assert(sound(m.heap, m.stack[depth - 1]));
            assert forall|k: int| 0 <= k < after.stack.len() implies sound(
                after.heap,
                #[trigger] after.stack[k],
            ) by {
                if k < after.stack.len() - 1 {
                    assert(after.stack[k] == m.stack[k]);
                }
            }
        },
        Instr::Halt => {},
        _ => {
            assert forall|k: int| 0 <= k < after.stack.len() implies sound(
                after.heap,
                #[trigger] after.stack[k],
            ) by {
                if k < depth && k < after.stack.len() - 1 {
                    assert(after.stack[k] == m.stack[k]);
                }
            }
        },
    }
}

/// A cycle keeps a well-formed machine well-formed.
pub proof fn cycle_keeps_wf(m: Machine)
    requires
        m.wf(),
        cycle(m) is Ok,
    ensures
        cycle(m)->Ok_0.wf(),
{
    if !m.halt {
        instr_keeps_wf(m.program[m.pc as int], Machine { pc: (m.pc + 1) as u32, ..m });
    }
}

/// However long it runs, a well-formed machine stays well-formed.
pub proof fn run_keeps_wf(m: Machine, cycles: nat)
    requires
        m.wf(),
    ensures
        run(m, cycles).0.wf(),
    decreases cycles,
{
    if !m.halt && cycles > 0 && cycle(m) is Ok {
        cycle_keeps_wf(m);
        run_keeps_wf(cycle(m)->Ok_0, (cycles - 1) as nat);
    }
}

/// On a well-formed machine a read through an address on the stack is
/// refused for one reason alone: the index lies outside the block.
pub proof fn read_checks_the_index(m: Machine, base: usize, index: i32)
    requires
        m.wf(),
        m.stack.len() >= 2,
        m.from_top(0) == Val::Vi32(index),
        m.from_top(1) == Val::Vaddr(base),
    ensures
        m.heap[base as int] is Vsize,
        get_step(m) is Ok <==> 0 <= index < m.heap[base as int]->Vsize_0,
        !(0 <= index < m.heap[base as int]->Vsize_0) ==> get_step(m) == Err::<Machine, VmError>(
            VmError::IndexOutOfBounds,
        ),
{
    assert(sound(m.heap, m.stack[m.stack.len() - 2]));
    block_fits(m.heap, 0, base as int);
}

/// Decoding gives only instructions that a program may hold.
pub proof fn parsed_instr_is_plain(bytes: Seq<u8>)
    ensures
        Instr::parse(bytes) matches Some((i, n)) ==> plain(i),
{
}

/// A machine that starts on a program with plain instructions alone is
/// well-formed.
pub proof fn plain_program_starts_wf(program: Seq<Instr>)
    requires
        forall|k: int| 0 <= k < program.len() ==> plain(#[trigger] program[k]),
    ensures
        Machine::start(program).wf(),
{
}

/// A machine that starts on a decoded program is well-formed.
pub proof fn decoded_program_starts_wf(bytes: Seq<u8>)
    requires
        parse_program(bytes) is Some,
    ensures
        Machine::start(parse_program(bytes)->0).wf(),
{
    let header = u32::parse(bytes)->0;
    let count = header.0;
    parsed_instrs_are_plain(bytes.skip(4), count as nat);
}

/// Every instruction of a decoded run may stand in a program.
pub proof fn parsed_instrs_are_plain(bytes: Seq<u8>, count: nat)
    requires
        parse_instrs(bytes, count) is Some,
    ensures
        forall|k: int|
            0 <= k < parse_instrs(bytes, count)->0.len() ==> plain(
                #[trigger] parse_instrs(bytes, count)->0[k],
            ),
    decreases count,
{
    if count > 0 {
        parsed_instr_is_plain(bytes);
        let first = Instr::parse(bytes)->0;
        let n = first.1;
        parsed_instrs_are_plain(bytes.skip(n as int), (count - 1) as nat);
    }
}

} // verus!
