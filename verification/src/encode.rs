//! The encoder: the byte form of every item that has one, and the proofs
//! that decoding and encoding undo each other.
use crate::value::{Binop, Instr, Unop, Val};
use crate::wire::{be_value, fromBinary, parse_instrs, parse_program, signed32};
use vstd::prelude::*;

verus! {

/// The four bytes that spell `n`, most significant byte first.
pub open spec fn be_bytes(n: int) -> Seq<u8>
    recommends
        0 <= n < 0x1_0000_0000,
{
    seq![
        (n / 0x100_0000) as u8,
        (n / 0x1_0000 % 0x100) as u8,
        (n / 0x100 % 0x100) as u8,
        (n % 0x100) as u8,
    ]
}

/// The 32-bit pattern of a signed number, in two's complement.
pub open spec fn unsigned32(i: int) -> int {
    if i < 0 {
        i + 0x1_0000_0000
    } else {
        i
    }
}

/// The tag byte of a binary operator.
pub open spec fn binop_tag(op: Binop) -> u8 {
    match op {
        Binop::Add => 0,
        Binop::Mul => 1,
        Binop::Sub => 2,
        Binop::Div => 3,
        Binop::Lt => 4,
        Binop::Eq => 5,
    }
}

/// The bytes of a value. Size slots and heap addresses exist only inside a
/// running machine and have no byte form.
pub open spec fn val_bytes(v: Val) -> Option<Seq<u8>> {
    match v {
        Val::Vunit => Some(seq![0u8]),
        Val::Vi32(n) => Some(seq![1u8] + be_bytes(unsigned32(n as int))),
        Val::Vbool(true) => Some(seq![2u8]),
        Val::Vbool(false) => Some(seq![3u8]),
        Val::Vloc(n) => Some(seq![4u8] + be_bytes(n as int)),
        Val::Vundef => Some(seq![5u8]),
        Val::Vsize(_) => None,
        Val::Vaddr(_) => None,
    }
}

/// The bytes of an instruction, where its operand has a byte form.
pub open spec fn instr_bytes(i: Instr) -> Option<Seq<u8>> {
    match i {
        Instr::Push(v) => match val_bytes(v) {
            Some(b) => Some(seq![0u8] + b),
            None => None,
        },
        Instr::Pop => Some(seq![1u8]),
        Instr::Peek(n) => Some(seq![2u8] + be_bytes(n as int)),
        Instr::Unary(Unop::Neg) => Some(seq![3u8, 0u8]),
        Instr::Binary(op) => Some(seq![4u8, binop_tag(op)]),
        Instr::Swap => Some(seq![5u8]),
        Instr::Alloc => Some(seq![6u8]),
        Instr::Put => Some(seq![7u8]),
        Instr::Get => Some(seq![8u8]),
        Instr::Var(n) => Some(seq![9u8] + be_bytes(n as int)),
        Instr::Store(n) => Some(seq![10u8] + be_bytes(n as int)),
        Instr::SetFrame(n) => Some(seq![11u8] + be_bytes(n as int)),
        Instr::Call => Some(seq![12u8]),
        Instr::Ret => Some(seq![13u8]),
        Instr::Branch => Some(seq![14u8]),
        Instr::Halt => Some(seq![15u8]),
    }
}

/// The bytes of a run of instructions, back to back, where each has a byte
/// form.
pub open spec fn instrs_bytes(p: Seq<Instr>) -> Option<Seq<u8>>
    decreases p.len(),
{
    if p.len() == 0 {
        Some(Seq::empty())
    } else {
        match (instr_bytes(p[0]), instrs_bytes(p.skip(1))) {
            (Some(first), Some(others)) => Some(first + others),
            _ => None,
        }
    }
}

/// The bytes of a program: its length in four bytes, and its instructions.
/// A program too long for its length to fit four bytes has none.
pub open spec fn program_bytes(p: Seq<Instr>) -> Option<Seq<u8>> {
    if p.len() > u32::MAX {
        None
    } else {
        match instrs_bytes(p) {
            Some(b) => Some(be_bytes(p.len() as int) + b),
            None => None,
        }
    }
}

/// Appends the four bytes that spell `n`, most significant byte first.
pub fn push_u32_be(out: &mut Vec<u8>, n: u32)
    ensures
        final(out)@ == old(out)@ + be_bytes(n as int),
{
    out.push((n / 0x100_0000) as u8);
    out.push((n / 0x1_0000 % 0x100) as u8);
    out.push((n / 0x100 % 0x100) as u8);
    out.push((n % 0x100) as u8);
    proof {
        assert(out@ =~= old(out)@ + be_bytes(n as int));
    }
}

/// Appends the four bytes that spell `n` in two's complement, most
/// significant byte first.
pub fn push_i32_be(out: &mut Vec<u8>, n: i32)
    ensures
        final(out)@ == old(out)@ + be_bytes(unsigned32(n as int)),
{
    let pattern: u32 = if n >= 0 {
        n as u32
    } else {
        (n + i32::MAX + 1) as u32 + 0x8000_0000
    };
    push_u32_be(out, pattern);
}

/// Does the value have a byte form?
pub fn val_bytes_exist(v: &Val) -> (yes: bool)
    ensures
        yes == val_bytes(*v) is Some,
{
    match v {
        Val::Vsize(_) => false,
        Val::Vaddr(_) => false,
        _ => true,
    }
}

impl Binop {
    /// The tag byte of the operator.
    pub fn tag(&self) -> (t: u8)
        ensures
            t == binop_tag(*self),
    {
        match self {
            Binop::Add => 0,
            Binop::Mul => 1,
            Binop::Sub => 2,
            Binop::Div => 3,
            Binop::Lt => 4,
            Binop::Eq => 5,
        }
    }
}

impl Val {
    /// Appends the bytes of the value to `out` and says whether it has any:
    /// for a size slot or a heap address nothing is appended.
    pub fn to_binary(&self, out: &mut Vec<u8>) -> (done: bool)
        ensures
            match val_bytes(*self) {
                Some(b) => done && final(out)@ == old(out)@ + b,
                None => !done && final(out)@ == old(out)@,
            },
    {
        match *self {
            Val::Vunit => {
                out.push(0);
            },
            Val::Vi32(n) => {
                out.push(1);
                push_i32_be(out, n);
            },
            Val::Vbool(true) => {
                out.push(2);
            },
            Val::Vbool(false) => {
                out.push(3);
            },
            Val::Vloc(n) => {
                out.push(4);
                push_u32_be(out, n);
            },
            Val::Vundef => {
                out.push(5);
            },
            Val::Vsize(_) => {
                return false;
            },
            Val::Vaddr(_) => {
                return false;
            },
        }
        proof {
            assert(out@ =~= old(out)@ + val_bytes(*self)->0);
        }
        true
    }
}

impl Instr {
    /// Appends the bytes of the instruction to `out` and says whether it
    /// has any: for a push of a size slot or a heap address nothing is
    /// appended.
    pub fn to_binary(&self, out: &mut Vec<u8>) -> (done: bool)
        ensures
            match instr_bytes(*self) {
                Some(b) => done && final(out)@ == old(out)@ + b,
                None => !done && final(out)@ == old(out)@,
            },
    {
        match *self {
            Instr::Push(v) => {
                if val_bytes_exist(&v) {
                    out.push(0);
                    let _ = v.to_binary(out);
                } else {
                    return false;
                }
            },
            Instr::Pop => {
                out.push(1);
            },
            Instr::Peek(n) => {
                out.push(2);
                push_u32_be(out, n);
            },
            Instr::Unary(Unop::Neg) => {
                out.push(3);
                out.push(0);
            },
            Instr::Binary(op) => {
                out.push(4);
                out.push(op.tag());
            },
            Instr::Swap => {
                out.push(5);
            },
            Instr::Alloc => {
                out.push(6);
            },
            Instr::Put => {
                out.push(7);
            },
            Instr::Get => {
                out.push(8);
            },
            Instr::Var(n) => {
                out.push(9);
                push_u32_be(out, n);
            },
            Instr::Store(n) => {
                out.push(10);
                push_u32_be(out, n);
            },
            Instr::SetFrame(n) => {
                out.push(11);
                push_u32_be(out, n);
            },
            Instr::Call => {
                out.push(12);
            },
            Instr::Ret => {
                out.push(13);
            },
            Instr::Branch => {
                out.push(14);
            },
            Instr::Halt => {
                out.push(15);
            },
        }
        proof {
            assert(out@ =~= old(out)@ + instr_bytes(*self)->0);
        }
        true
    }
}

/// The bytes of a run grow by the bytes of the instruction added at its
/// end.
pub proof fn instrs_bytes_of_push(p: Seq<Instr>, i: Instr)
    ensures
        instrs_bytes(p.push(i)) == match (instrs_bytes(p), instr_bytes(i)) {
            (Some(front), Some(last)) => Some(front + last),
            _ => None,
        },
    decreases p.len(),
{
    let q = p.push(i);
    assert(q[0] == if p.len() == 0 {
        i
    } else {
        p[0]
    });
    if p.len() == 0 {
        assert(q.skip(1) =~= Seq::<Instr>::empty());
        assert(instrs_bytes(q.skip(1)) == Some(Seq::<u8>::empty()));
        assert(instrs_bytes(p) == Some(Seq::<u8>::empty()));
        if instr_bytes(i) is Some {
            let last = instr_bytes(i)->0;
            assert(last + Seq::<u8>::empty() =~= Seq::<u8>::empty() + last);
        }
    } else {
        assert(q.skip(1) =~= p.skip(1).push(i));
        instrs_bytes_of_push(p.skip(1), i);
        if instr_bytes(p[0]) is Some && instrs_bytes(p.skip(1)) is Some && instr_bytes(i) is Some {
            let first = instr_bytes(p[0])->0;
            let others = instrs_bytes(p.skip(1))->0;
            let last = instr_bytes(i)->0;
            assert(first + (others + last) =~= (first + others) + last);
        }
    }
}

/// A run has no byte form if one of its instructions has none.
pub proof fn no_bytes_without_a_part(p: Seq<Instr>, at: int)
    requires
        0 <= at < p.len(),
        instr_bytes(p[at]) is None,
    ensures
        instrs_bytes(p) is None,
    decreases p.len(),
{
    if at > 0 {
        no_bytes_without_a_part(p.skip(1), at - 1);
    }
}

/// Encodes a program: its length in four bytes and its instructions. There
/// is no result for a program of more than 2^32 - 1 instructions, or one
/// that pushes a size slot or a heap address.
pub fn encode_program(program: &Vec<Instr>) -> (r: Option<Vec<u8>>)
    ensures
        match r {
            Some(bytes) => program_bytes(program@) == Some(bytes@),
            None => program_bytes(program@) is None,
        },
{
    let count: usize = program.len();
    if count > u32::MAX as usize {
        return None;
    }
    let mut out: Vec<u8> = Vec::new();
    push_u32_be(&mut out, count as u32);
    let mut done: usize = 0;
    while done < count
        invariant
            done <= count,
            count == program@.len(),
            count <= u32::MAX,
            instrs_bytes(program@.take(done as int)) is Some,
            out@ == be_bytes(count as int) + instrs_bytes(program@.take(done as int))->0,
        decreases count - done,
    {
        proof {
            instrs_bytes_of_push(program@.take(done as int), program@[done as int]);
            assert(program@.take(done as int).push(program@[done as int]) =~= program@.take(
                done + 1,
            ));
        }
        if !program[done].to_binary(&mut out) {
            proof {
                no_bytes_without_a_part(program@, done as int);
            }
            return None;
        }
        proof {
            let front = instrs_bytes(program@.take(done as int))->0;
            let last = instr_bytes(program@[done as int])->0;
            assert(out@ =~= be_bytes(count as int) + (front + last));
        }
        done = done + 1;
    }
    proof {
        assert(program@.take(count as int) =~= program@);
    }
    Some(out)
}

/// Four big-endian bytes spell the number they were made from, whatever
/// follows them.
pub proof fn be_value_inverts_be_bytes(n: int, rest: Seq<u8>)
    requires
        0 <= n < 0x1_0000_0000,
    ensures
        be_value(be_bytes(n) + rest) == n,
        be_bytes(n).len() == 4,
{
    let b = be_bytes(n) + rest;
    assert(b[0] == (n / 0x100_0000) as u8);
    assert(b[1] == (n / 0x1_0000 % 0x100) as u8);
    assert(b[2] == (n / 0x100 % 0x100) as u8);
    assert(b[3] == (n % 0x100) as u8);
}

/// The number that four bytes spell is made of those four bytes.
pub proof fn be_bytes_inverts_be_value(bytes: Seq<u8>)
    requires
        bytes.len() >= 4,
    ensures
        0 <= be_value(bytes) < 0x1_0000_0000,
        be_bytes(be_value(bytes)) == bytes.take(4),
{
    let n = be_value(bytes);
    assert(n / 0x100_0000 == bytes[0]);
    assert(n / 0x1_0000 % 0x100 == bytes[1]);
    assert(n / 0x100 % 0x100 == bytes[2]);
    assert(n % 0x100 == bytes[3]);
    assert(be_bytes(n) =~= bytes.take(4));
}

/// Decoding the bytes of an unsigned number gives the number back.
pub proof fn decode_inverts_encode_u32(n: u32, rest: Seq<u8>)
    ensures
        u32::parse(be_bytes(n as int) + rest) == Some((n, 4nat)),
{
    be_value_inverts_be_bytes(n as int, rest);
}

/// Decoding the bytes of a signed number gives the number back.
pub proof fn decode_inverts_encode_i32(n: i32, rest: Seq<u8>)
    ensures
        i32::parse(be_bytes(unsigned32(n as int)) + rest) == Some((n, 4nat)),
{
    be_value_inverts_be_bytes(unsigned32(n as int), rest);
    assert(signed32(unsigned32(n as int)) == n);
}

/// Decoding the bytes of a value gives the value back and stops right
/// behind them, whatever follows.
pub proof fn decode_inverts_encode_val(v: Val, rest: Seq<u8>)
    requires
        val_bytes(v) is Some,
    ensures
        Val::parse(val_bytes(v)->0 + rest) == Some((v, val_bytes(v)->0.len())),
{
    let bytes = val_bytes(v)->0 + rest;
    match v {
        Val::Vi32(n) => {
            assert(bytes.skip(1) =~= be_bytes(unsigned32(n as int)) + rest);
            decode_inverts_encode_i32(n, rest);
        },
        Val::Vloc(n) => {
            assert(bytes.skip(1) =~= be_bytes(n as int) + rest);
            decode_inverts_encode_u32(n, rest);
        },
        _ => {},
    }
}

/// Decoding the bytes of an instruction gives the instruction back and
/// stops right behind them, whatever follows.
pub proof fn decode_inverts_encode_instr(i: Instr, rest: Seq<u8>)
    requires
        instr_bytes(i) is Some,
    ensures
        Instr::parse(instr_bytes(i)->0 + rest) == Some((i, instr_bytes(i)->0.len())),
{
    let bytes = instr_bytes(i)->0 + rest;
    match i {
        Instr::Push(v) => {
            assert(bytes.skip(1) =~= val_bytes(v)->0 + rest);
            decode_inverts_encode_val(v, rest);
        },
        Instr::Peek(n) | Instr::Var(n) | Instr::Store(n) | Instr::SetFrame(n) => {
            assert(bytes.skip(1) =~= be_bytes(n as int) + rest);
            decode_inverts_encode_u32(n, rest);
        },
        Instr::Unary(_) => {
            assert(bytes.skip(1) =~= seq![0u8] + rest);
        },
        Instr::Binary(op) => {
            assert(bytes.skip(1) =~= seq![binop_tag(op)] + rest);
        },
        _ => {},
    }
}

/// Decoding the bytes of a run of instructions gives the run back.
pub proof fn decode_inverts_encode_instrs(p: Seq<Instr>, rest: Seq<u8>)
    requires
        instrs_bytes(p) is Some,
    ensures
        parse_instrs(instrs_bytes(p)->0 + rest, p.len()) == Some(p),
    decreases p.len(),
{
    if p.len() == 0 {
        assert(p =~= Seq::empty());
    } else {
        let first = instr_bytes(p[0])->0;
        let others = instrs_bytes(p.skip(1))->0;
        let bytes = instrs_bytes(p)->0 + rest;
        assert(bytes =~= first + (others + rest));
        decode_inverts_encode_instr(p[0], others + rest);
        assert(bytes.skip(first.len() as int) =~= others + rest);
        decode_inverts_encode_instrs(p.skip(1), rest);
        assert(seq![p[0]] + p.skip(1) =~= p);
    }
}

/// Decoding the bytes of a program gives the program back.
pub proof fn decode_inverts_encode_program(p: Seq<Instr>, rest: Seq<u8>)
    requires
        program_bytes(p) is Some,
    ensures
        parse_program(program_bytes(p)->0 + rest) == Some(p),
{
    let body = instrs_bytes(p)->0;
    let bytes = program_bytes(p)->0 + rest;
    assert(bytes =~= be_bytes(p.len() as int) + (body + rest));
    decode_inverts_encode_u32(p.len() as u32, body + rest);
    assert(bytes.skip(4) =~= body + rest);
    decode_inverts_encode_instrs(p, rest);
}

/// A value is decoded from its own byte form and from nothing else: the
/// bytes that a decoded value was read from are the bytes of that value.
pub proof fn encode_inverts_decode_val(bytes: Seq<u8>)
    requires
        Val::parse(bytes) is Some,
    ensures
        ({
            let (v, n) = Val::parse(bytes)->0;
            n <= bytes.len() && val_bytes(v) == Some(bytes.take(n as int))
        }),
{
    let (v, n) = Val::parse(bytes)->0;
    if bytes[0] == 1 || bytes[0] == 4 {
        let tail = bytes.skip(1);
        be_bytes_inverts_be_value(tail);
        assert(seq![bytes[0]] + tail.take(4) =~= bytes.take(5));
    } else {
        assert(seq![bytes[0]] =~= bytes.take(1));
    }
}

/// An instruction is decoded from its own byte form and from nothing else.
pub proof fn encode_inverts_decode_instr(bytes: Seq<u8>)
    requires
        Instr::parse(bytes) is Some,
    ensures
        ({
            let (i, n) = Instr::parse(bytes)->0;
            n <= bytes.len() && instr_bytes(i) == Some(bytes.take(n as int))
        }),
{
    let (i, n) = Instr::parse(bytes)->0;
    let tag = bytes[0];
    let tail = bytes.skip(1);
    if tag == 0 {
        encode_inverts_decode_val(tail);
        assert(seq![tag] + tail.take(n - 1) =~= bytes.take(n as int));
    } else if tag == 2 || tag == 9 || tag == 10 || tag == 11 {
        be_bytes_inverts_be_value(tail);
        assert(seq![tag] + tail.take(4) =~= bytes.take(5));
    } else if tag == 3 || tag == 4 {
        assert(seq![tag, tail[0]] =~= bytes.take(2));
    } else {
        assert(seq![tag] =~= bytes.take(1));
    }
}

} // verus!
