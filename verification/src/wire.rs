//! The binary program format and its decoder.
//!
//! A program is a count followed by that many instructions. Every tagged
//! item starts with a one-byte tag; integers are four bytes, most
//! significant byte first.
use crate::cursor::ByteCursor;
use crate::error::VmError;
use crate::value::{Binop, Instr, Unop, Val};
use byteorder::{BigEndian, ByteOrder};
use vstd::prelude::*;

verus! {

/// The number that the first four bytes of `b` spell, most significant byte
/// first.
pub open spec fn be_value(b: Seq<u8>) -> int
    recommends
        b.len() >= 4,
{
    b[0] as int * 0x100_0000 + b[1] as int * 0x1_0000 + b[2] as int * 0x100 + b[3] as int
}

/// The signed reading of a 32-bit pattern, in two's complement.
pub open spec fn signed32(u: int) -> int {
    if u >= 0x8000_0000 {
        u - 0x1_0000_0000
    } else {
        u
    }
}

/// `byteorder::BigEndian::read_u32`. The crate reads the first four bytes of
/// the buffer as a big-endian unsigned number, and panics on a shorter
/// buffer.
#[verifier::external_body]
fn read_u32_be(buf: &[u8]) -> (n: u32)
    requires
        buf@.len() >= 4,
    ensures
        n as int == be_value(buf@),
{
    BigEndian::read_u32(buf)
}

/// `byteorder::BigEndian::read_i32`. The crate reads the first four bytes of
/// the buffer as a big-endian unsigned number and reinterprets the pattern
/// as signed; it panics on a shorter buffer.
#[verifier::external_body]
fn read_i32_be(buf: &[u8]) -> (n: i32)
    requires
        buf@.len() >= 4,
    ensures
        n as int == signed32(be_value(buf@)),
{
    BigEndian::read_i32(buf)
}

/// The operator that a tag byte names.
pub open spec fn unop_of_tag(tag: u8) -> Option<Unop> {
    if tag == 0 {
        Some(Unop::Neg)
    } else {
        None
    }
}

/// The operator that a tag byte names.
pub open spec fn binop_of_tag(tag: u8) -> Option<Binop> {
    if tag == 0 {
        Some(Binop::Add)
    } else if tag == 1 {
        Some(Binop::Mul)
    } else if tag == 2 {
        Some(Binop::Sub)
    } else if tag == 3 {
        Some(Binop::Div)
    } else if tag == 4 {
        Some(Binop::Lt)
    } else if tag == 5 {
        Some(Binop::Eq)
    } else {
        None
    }
}

/// Items that have a binary form.
#[allow(non_camel_case_types)]
pub trait fromBinary: Sized {
    /// What the front of `bytes` decodes to: the item and the number of bytes
    /// that spell it, or `None` where no item starts there.
    spec fn parse(bytes: Seq<u8>) -> Option<(Self, nat)>;

    /// Decodes the item at the cursor and moves the cursor past it. Fails
    /// where the bytes end early or hold an unknown tag, and leaves the
    /// cursor where it was.
    fn from_binary(bytes: &mut ByteCursor) -> (r: Result<Self, VmError>)
        ensures
            match r {
                Ok(v) => Self::parse(old(bytes)@) matches Some((item, n)) && item == v && n <= old(
                    bytes,
                )@.len() && final(bytes)@ == old(bytes)@.skip(n as int),
                Err(e) => e == VmError::MalformedProgram && Self::parse(old(bytes)@) is None
                    && *final(bytes) == *old(bytes),
            },
    ;
}

impl fromBinary for i32 {
    open spec fn parse(bytes: Seq<u8>) -> Option<(Self, nat)> {
        if bytes.len() >= 4 {
            Some((signed32(be_value(bytes)) as i32, 4))
        } else {
            None
        }
    }

    fn from_binary(bytes: &mut ByteCursor) -> (r: Result<Self, VmError>) {
        match bytes.take(4) {
            Some(four) => Ok(read_i32_be(four)),
            None => Err(VmError::MalformedProgram),
        }
    }
}

impl fromBinary for u32 {
    open spec fn parse(bytes: Seq<u8>) -> Option<(Self, nat)> {
        if bytes.len() >= 4 {
            Some((be_value(bytes) as u32, 4))
        } else {
            None
        }
    }

    fn from_binary(bytes: &mut ByteCursor) -> (r: Result<Self, VmError>) {
        match bytes.take(4) {
            Some(four) => Ok(read_u32_be(four)),
            None => Err(VmError::MalformedProgram),
        }
    }
}

impl fromBinary for Unop {
    open spec fn parse(bytes: Seq<u8>) -> Option<(Self, nat)> {
        if bytes.len() >= 1 && unop_of_tag(bytes[0]) is Some {
            Some((unop_of_tag(bytes[0])->0, 1))
        } else {
            None
        }
    }

    fn from_binary(bytes: &mut ByteCursor) -> (r: Result<Self, VmError>) {
        let start: ByteCursor = *bytes;
        match bytes.next() {
            Some(0) => Ok(Unop::Neg),
            _ => {
                *bytes = start;
                Err(VmError::MalformedProgram)
            },
        }
    }
}

impl fromBinary for Binop {
    open spec fn parse(bytes: Seq<u8>) -> Option<(Self, nat)> {
        if bytes.len() >= 1 && binop_of_tag(bytes[0]) is Some {
            Some((binop_of_tag(bytes[0])->0, 1))
        } else {
            None
        }
    }

    fn from_binary(bytes: &mut ByteCursor) -> (r: Result<Self, VmError>) {
        let start: ByteCursor = *bytes;
        match bytes.next() {
            Some(0) => Ok(Binop::Add),
            Some(1) => Ok(Binop::Mul),
            Some(2) => Ok(Binop::Sub),
            Some(3) => Ok(Binop::Div),
            Some(4) => Ok(Binop::Lt),
            Some(5) => Ok(Binop::Eq),
            _ => {
                *bytes = start;
                Err(VmError::MalformedProgram)
            },
        }
    }
}

/// The item that `inner` found behind a one-byte tag.
pub open spec fn behind_tag<A, B>(inner: Option<(A, nat)>, wrap: spec_fn(A) -> B) -> Option<
    (B, nat),
> {
    match inner {
        Some((a, n)) => Some((wrap(a), n + 1)),
        None => None,
    }
}

impl fromBinary for Val {
    open spec fn parse(bytes: Seq<u8>) -> Option<(Self, nat)> {
        if bytes.len() == 0 {
            None
        } else if bytes[0] == 0 {
            Some((Val::Vunit, 1))
        } else if bytes[0] == 1 {
            behind_tag(i32::parse(bytes.skip(1)), |n: i32| Val::Vi32(n))
        } else if bytes[0] == 2 {
            Some((Val::Vbool(true), 1))
        } else if bytes[0] == 3 {
            Some((Val::Vbool(false), 1))
        } else if bytes[0] == 4 {
            behind_tag(u32::parse(bytes.skip(1)), |n: u32| Val::Vloc(n))
        } else if bytes[0] == 5 {
            Some((Val::Vundef, 1))
        } else {
            None
        }
    }

    fn from_binary(bytes: &mut ByteCursor) -> (r: Result<Self, VmError>) {
        let start: ByteCursor = *bytes;
        match bytes.next() {
            Some(0) => Ok(Val::Vunit),
            Some(1) => match <i32 as fromBinary>::from_binary(bytes) {
                Ok(n) => Ok(Val::Vi32(n)),
                Err(e) => {
                    *bytes = start;
                    Err(e)
                },
            },
            Some(2) => Ok(Val::Vbool(true)),
            Some(3) => Ok(Val::Vbool(false)),
            Some(4) => match <u32 as fromBinary>::from_binary(bytes) {
                Ok(n) => Ok(Val::Vloc(n)),
                Err(e) => {
                    *bytes = start;
                    Err(e)
                },
            },
            Some(5) => Ok(Val::Vundef),
            _ => {
                *bytes = start;
                Err(VmError::MalformedProgram)
            },
        }
    }
}

impl fromBinary for Instr {
    open spec fn parse(bytes: Seq<u8>) -> Option<(Self, nat)> {
        if bytes.len() == 0 {
            None
        } else if bytes[0] == 0 {
            behind_tag(Val::parse(bytes.skip(1)), |v: Val| Instr::Push(v))
        } else if bytes[0] == 1 {
            Some((Instr::Pop, 1))
        } else if bytes[0] == 2 {
            behind_tag(u32::parse(bytes.skip(1)), |n: u32| Instr::Peek(n))
        } else if bytes[0] == 3 {
            behind_tag(Unop::parse(bytes.skip(1)), |u: Unop| Instr::Unary(u))
        } else if bytes[0] == 4 {
            behind_tag(Binop::parse(bytes.skip(1)), |b: Binop| Instr::Binary(b))
        } else if bytes[0] == 5 {
            Some((Instr::Swap, 1))
        } else if bytes[0] == 6 {
            Some((Instr::Alloc, 1))
        } else if bytes[0] == 7 {
            Some((Instr::Put, 1))
        } else if bytes[0] == 8 {
            Some((Instr::Get, 1))
        } else if bytes[0] == 9 {
            behind_tag(u32::parse(bytes.skip(1)), |n: u32| Instr::Var(n))
        } else if bytes[0] == 10 {
            behind_tag(u32::parse(bytes.skip(1)), |n: u32| Instr::Store(n))
        } else if bytes[0] == 11 {
            behind_tag(u32::parse(bytes.skip(1)), |n: u32| Instr::SetFrame(n))
        } else if bytes[0] == 12 {
            Some((Instr::Call, 1))
        } else if bytes[0] == 13 {
            Some((Instr::Ret, 1))
        } else if bytes[0] == 14 {
            Some((Instr::Branch, 1))
        } else if bytes[0] == 15 {
            Some((Instr::Halt, 1))
        } else {
            None
        }
    }

    fn from_binary(bytes: &mut ByteCursor) -> (r: Result<Self, VmError>) {
        let start: ByteCursor = *bytes;
        match bytes.next() {
            Some(0) => match <Val as fromBinary>::from_binary(bytes) {
                Ok(v) => Ok(Instr::Push(v)),
                Err(e) => {
                    *bytes = start;
                    Err(e)
                },
            },
            Some(1) => Ok(Instr::Pop),
            Some(2) => match <u32 as fromBinary>::from_binary(bytes) {
                Ok(n) => Ok(Instr::Peek(n)),
                Err(e) => {
                    *bytes = start;
                    Err(e)
                },
            },
            Some(3) => match <Unop as fromBinary>::from_binary(bytes) {
                Ok(u) => Ok(Instr::Unary(u)),
                Err(e) => {
                    *bytes = start;
                    Err(e)
                },
            },
            Some(4) => match <Binop as fromBinary>::from_binary(bytes) {
                Ok(b) => Ok(Instr::Binary(b)),
                Err(e) => {
                    *bytes = start;
                    Err(e)
                },
            },
            Some(5) => Ok(Instr::Swap),
            Some(6) => Ok(Instr::Alloc),
            Some(7) => Ok(Instr::Put),
            Some(8) => Ok(Instr::Get),
            Some(9) => match <u32 as fromBinary>::from_binary(bytes) {
                Ok(n) => Ok(Instr::Var(n)),
                Err(e) => {
                    *bytes = start;
                    Err(e)
                },
            },
            Some(10) => match <u32 as fromBinary>::from_binary(bytes) {
                Ok(n) => Ok(Instr::Store(n)),
                Err(e) => {
                    *bytes = start;
                    Err(e)
                },
            },
            Some(11) => match <u32 as fromBinary>::from_binary(bytes) {
                Ok(n) => Ok(Instr::SetFrame(n)),
                Err(e) => {
                    *bytes = start;
                    Err(e)
                },
            },
            Some(12) => Ok(Instr::Call),
            Some(13) => Ok(Instr::Ret),
            Some(14) => Ok(Instr::Branch),
            Some(15) => Ok(Instr::Halt),
            _ => {
                *bytes = start;
                Err(VmError::MalformedProgram)
            },
        }
    }
}

/// `front` followed by what `rest` holds, where it holds anything.
pub open spec fn prepend(front: Seq<Instr>, rest: Option<Seq<Instr>>) -> Option<Seq<Instr>> {
    match rest {
        Some(r) => Some(front + r),
        None => None,
    }
}

/// The `count` instructions that `bytes` spells back to back, or `None`
/// where fewer are there.
pub open spec fn parse_instrs(bytes: Seq<u8>, count: nat) -> Option<Seq<Instr>>
    decreases count,
{
    if count == 0 {
        Some(Seq::empty())
    } else {
        match Instr::parse(bytes) {
            Some((i, n)) => prepend(seq![i], parse_instrs(bytes.skip(n as int), (count - 1) as nat)),
            None => None,
        }
    }
}

/// The program that `bytes` spells: a four-byte count, then that many
/// instructions. Bytes behind the last instruction are not looked at.
pub open spec fn parse_program(bytes: Seq<u8>) -> Option<Seq<Instr>> {
    match u32::parse(bytes) {
        Some((count, n)) => parse_instrs(bytes.skip(n as int), count as nat),
        None => None,
    }
}

/// Decodes a whole program. No part of a malformed program is handed out.
pub fn decode_program(bytes: &[u8]) -> (r: Result<Vec<Instr>, VmError>)
    ensures
        match r {
            Ok(program) => parse_program(bytes@) == Some(program@),
            Err(e) => e == VmError::MalformedProgram && parse_program(bytes@) is None,
        },
{
    let mut cursor = ByteCursor::new(bytes);
    let count: u32 = match <u32 as fromBinary>::from_binary(&mut cursor) {
        Ok(n) => n,
        Err(e) => {
            return Err(e);
        },
    };
    let mut program: Vec<Instr> = Vec::new();
    let mut done: u32 = 0;
    while done < count
        invariant
            done <= count,
            program@.len() == done,
            parse_program(bytes@) == prepend(
                program@,
                parse_instrs(cursor@, (count - done) as nat),
            ),
        decreases count - done,
    {
        let ghost before = program@;
        match <Instr as fromBinary>::from_binary(&mut cursor) {
            Ok(i) => {
                program.push(i);
                proof {
                    let rest = parse_instrs(cursor@, (count - done - 1) as nat);
                    if rest is Some {
                        assert(before + (seq![i] + rest->0) =~= program@ + rest->0);
                    }
                }
            },
            Err(e) => {
                return Err(e);
            },
        }
        done = done + 1;
    }
    proof {
        assert(program@ + Seq::<Instr>::empty() =~= program@);
    }
    Ok(program)
}

} // verus!
