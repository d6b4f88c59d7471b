//! The machine's state.
use crate::error::VmError;
use crate::heap::decoded_program_starts_wf;
use crate::value::{Instr, Val};
use crate::wire::{decode_program, parse_program};
use vstd::prelude::*;

verus! {

/// The most slots that the operand stack holds.
pub const STACK_SIZE: usize = 1024;

/// The most slots that the heap holds.
pub const HEAP_SIZE: usize = 1024;

/// Everything that a running program can change, and the program itself.
#[derive(Debug, Clone, PartialEq, Eq)]
pub struct State {
    /// Has the machine halted?
    pub halt: bool,
    /// The index of the instruction to fetch next.
    pub pc: u32,
    /// The stack index at which the current frame starts.
    pub fp: u32,
    /// The operand stack; its last element is the top.
    pub stack: Vec<Val>,
    /// The heap: blocks laid end to end, each a size slot and its payload.
    pub heap: Vec<Val>,
    /// The program being run.
    pub program: Vec<Instr>,
}

/// The mathematical value of a [`State`].
#[verifier::ext_equal]
pub struct Machine {
    /// Has the machine halted?
    pub halt: bool,
    /// The index of the instruction to fetch next.
    pub pc: u32,
    /// The stack index at which the current frame starts.
    pub fp: u32,
    /// The operand stack; its last element is the top.
    pub stack: Seq<Val>,
    /// The heap.
    pub heap: Seq<Val>,
    /// The program being run.
    pub program: Seq<Instr>,
}

impl View for State {
    type V = Machine;

    open spec fn view(&self) -> Machine {
        Machine {
            halt: self.halt,
            pc: self.pc,
            fp: self.fp,
            stack: self.stack@,
            heap: self.heap@,
            program: self.program@,
        }
    }
}

impl Machine {
    /// A machine about to run `program` from its first instruction, with
    /// nothing on the stack or the heap.
    pub open spec fn start(program: Seq<Instr>) -> Machine {
        Machine {
            halt: false,
            pc: 0,
            fp: 0,
            stack: Seq::empty(),
            heap: Seq::empty(),
            program,
        }
    }

    /// Stack and heap are within their caps.
    pub open spec fn within_caps(self) -> bool {
        self.stack.len() <= STACK_SIZE && self.heap.len() <= HEAP_SIZE
    }

    /// The slot `k` places below the top of the stack; the top is at 0.
    pub open spec fn from_top(self, k: int) -> Val
        recommends
            0 <= k < self.stack.len(),
    {
        self.stack[self.stack.len() - 1 - k]
    }

    /// The machine with its `k` topmost slots taken off and `pushed` put on
    /// in their place, the last of `pushed` on top.
    pub open spec fn replace_top(self, k: int, pushed: Seq<Val>) -> Machine
        recommends
            0 <= k <= self.stack.len(),
    {
        Machine { stack: self.stack.take(self.stack.len() - k) + pushed, ..self }
    }
}

impl State {
    /// The state in which a run of `program` begins.
    pub fn new(program: Vec<Instr>) -> (s: State)
        ensures
            s@ == Machine::start(program@),
    {
        State { halt: false, pc: 0, fp: 0, stack: Vec::new(), heap: Vec::new(), program }
    }

    /// Decodes a program and gives the state in which its run begins. That
    /// state is well-formed.
    pub fn load(bytes: &[u8]) -> (r: Result<State, VmError>)
        ensures
            match r {
                Ok(s) => parse_program(bytes@) == Some(s@.program) && s@ == Machine::start(
                    s@.program,
                ) && s@.wf(),
                Err(e) => e == VmError::MalformedProgram && parse_program(bytes@) is None,
            },
    {
        match decode_program(bytes) {
            Ok(program) => {
                proof {
                    decoded_program_starts_wf(bytes@);
                }
                Ok(State::new(program))
            },
            Err(e) => Err(e),
        }
    }
}

} // verus!
