//! A small stack machine: a decoder for its binary program format and an
//! evaluator over an operand stack and a heap of blocks.
pub mod cursor;
pub mod encode;
pub mod error;
pub mod eval;
pub mod heap;
pub mod laws;
pub mod semantics;
pub mod state;
pub mod value;
pub mod wire;

pub use cursor::ByteCursor;
pub use encode::encode_program;
pub use error::VmError;
pub use eval::{
    apply_binop, eval_alloc, eval_binary, eval_branch, eval_get, eval_ret, eval_set, eval_unary,
    evaluate, exec, locate, push_copy, push_value, step,
};
pub use state::{Machine, State, HEAP_SIZE, STACK_SIZE};
pub use value::{Address, Binop, Instr, Unop, Val};
pub use wire::{decode_program, fromBinary};
