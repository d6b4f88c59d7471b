use byteorder::{BigEndian, ByteOrder};
use stack_vm::encode::{push_i32_be, push_u32_be, val_bytes_exist};
use stack_vm::{
    decode_program, encode_program, fromBinary, Binop, ByteCursor, Instr, Unop, Val, VmError,
};

fn val_of(bytes: &[u8]) -> Result<Val, VmError> {
    let mut cursor = ByteCursor::new(bytes);
    Val::from_binary(&mut cursor)
}

fn instr_of(bytes: &[u8]) -> Result<Instr, VmError> {
    let mut cursor = ByteCursor::new(bytes);
    Instr::from_binary(&mut cursor)
}

fn tagged(tag: u8, payload: u32) -> Vec<u8> {
    let mut bytes = vec![tag, 0, 0, 0, 0];
    BigEndian::write_u32(&mut bytes[1..], payload);
    bytes
}

#[test]
fn cursor_reads_front_to_back() {
    let data = [7u8, 8, 9];
    let mut cursor = ByteCursor::new(&data);
    assert_eq!(cursor.remaining(), 3);
    assert_eq!(cursor.next(), Some(7));
    assert_eq!(cursor.next(), Some(8));
    assert_eq!(cursor.remaining(), 1);
    assert_eq!(cursor.next(), Some(9));
    assert_eq!(cursor.next(), None);
    assert_eq!(cursor.remaining(), 0);
}

#[test]
fn cursor_takes_all_or_nothing() {
    let data = [1u8, 2, 3, 4, 5];
    let mut cursor = ByteCursor::new(&data);
    assert_eq!(cursor.take(2), Some(&data[0..2]));
    assert_eq!(cursor.take(4), None);
    assert_eq!(cursor.remaining(), 3);
    assert_eq!(cursor.take(3), Some(&data[2..5]));
    assert_eq!(cursor.take(0), Some(&data[5..5]));
    assert_eq!(cursor.take(1), None);
}

#[test]
fn u32_is_big_endian() {
    let data = [0x01u8, 0x02, 0x03, 0x04, 0xff];
    let mut cursor = ByteCursor::new(&data);
    assert_eq!(u32::from_binary(&mut cursor), Ok(0x0102_0304));
    assert_eq!(cursor.remaining(), 1);
    let top = [0xffu8, 0xff, 0xff, 0xff];
    let mut cursor = ByteCursor::new(&top);
    assert_eq!(u32::from_binary(&mut cursor), Ok(u32::MAX));
}

#[test]
fn i32_is_big_endian_twos_complement() {
    let cases: [([u8; 4], i32); 6] = [
        ([0, 0, 0, 0], 0),
        ([0, 0, 1, 0], 256),
        ([0x7f, 0xff, 0xff, 0xff], i32::MAX),
        ([0x80, 0, 0, 0], i32::MIN),
        ([0xff, 0xff, 0xff, 0xff], -1),
        ([0xff, 0xff, 0xff, 0xf9], -7),
    ];
    for (bytes, expected) in cases {
        let mut cursor = ByteCursor::new(&bytes);
        assert_eq!(i32::from_binary(&mut cursor), Ok(expected));
        assert_eq!(cursor.remaining(), 0);
    }
}

#[test]
fn short_integer_is_malformed() {
    let data = [1u8, 2, 3];
    let mut cursor = ByteCursor::new(&data);
    assert_eq!(u32::from_binary(&mut cursor), Err(VmError::MalformedProgram));
    let mut cursor = ByteCursor::new(&data);
    assert_eq!(i32::from_binary(&mut cursor), Err(VmError::MalformedProgram));
}

#[test]
fn operator_tags() {
    let mut cursor = ByteCursor::new(&[0]);
    assert_eq!(Unop::from_binary(&mut cursor), Ok(Unop::Neg));
    let mut cursor = ByteCursor::new(&[1]);
    assert_eq!(Unop::from_binary(&mut cursor), Err(VmError::MalformedProgram));
    let expected =
        [Binop::Add, Binop::Mul, Binop::Sub, Binop::Div, Binop::Lt, Binop::Eq];
    for (tag, op) in expected.iter().enumerate() {
        let data = [tag as u8];
        let mut cursor = ByteCursor::new(&data);
        assert_eq!(Binop::from_binary(&mut cursor), Ok(*op));
    }
    let mut cursor = ByteCursor::new(&[6]);
    assert_eq!(Binop::from_binary(&mut cursor), Err(VmError::MalformedProgram));
    let mut cursor = ByteCursor::new(&[]);
    assert_eq!(Binop::from_binary(&mut cursor), Err(VmError::MalformedProgram));
}

#[test]
fn value_tags() {
    assert_eq!(val_of(&[0]), Ok(Val::Vunit));
    assert_eq!(val_of(&[1, 0, 0, 0, 42]), Ok(Val::Vi32(42)));
    assert_eq!(val_of(&[1, 0xff, 0xff, 0xff, 0xfe]), Ok(Val::Vi32(-2)));
    assert_eq!(val_of(&[2]), Ok(Val::Vbool(true)));
    assert_eq!(val_of(&[3]), Ok(Val::Vbool(false)));
    assert_eq!(val_of(&[4, 0, 0, 1, 2]), Ok(Val::Vloc(258)));
    assert_eq!(val_of(&[5]), Ok(Val::Vundef));
}

#[test]
fn value_failures() {
    assert_eq!(val_of(&[]), Err(VmError::MalformedProgram));
    assert_eq!(val_of(&[6]), Err(VmError::MalformedProgram));
    assert_eq!(val_of(&[255]), Err(VmError::MalformedProgram));
    assert_eq!(val_of(&[1, 0, 0, 0]), Err(VmError::MalformedProgram));
    assert_eq!(val_of(&[4]), Err(VmError::MalformedProgram));
}

#[test]
fn instruction_tags() {
    assert_eq!(instr_of(&[0, 1, 0, 0, 0, 9]), Ok(Instr::Push(Val::Vi32(9))));
    assert_eq!(instr_of(&[0, 2]), Ok(Instr::Push(Val::Vbool(true))));
    assert_eq!(instr_of(&[1]), Ok(Instr::Pop));
    assert_eq!(instr_of(&tagged(2, 7)), Ok(Instr::Peek(7)));
    assert_eq!(instr_of(&[3, 0]), Ok(Instr::Unary(Unop::Neg)));
    assert_eq!(instr_of(&[4, 3]), Ok(Instr::Binary(Binop::Div)));
    assert_eq!(instr_of(&[5]), Ok(Instr::Swap));
    assert_eq!(instr_of(&[6]), Ok(Instr::Alloc));
    assert_eq!(instr_of(&[7]), Ok(Instr::Put));
    assert_eq!(instr_of(&[8]), Ok(Instr::Get));
    assert_eq!(instr_of(&tagged(9, 1)), Ok(Instr::Var(1)));
    assert_eq!(instr_of(&tagged(10, 70_000)), Ok(Instr::Store(70_000)));
    assert_eq!(instr_of(&tagged(11, u32::MAX)), Ok(Instr::SetFrame(u32::MAX)));
    assert_eq!(instr_of(&[12]), Ok(Instr::Call));
    assert_eq!(instr_of(&[13]), Ok(Instr::Ret));
    assert_eq!(instr_of(&[14]), Ok(Instr::Branch));
    assert_eq!(instr_of(&[15]), Ok(Instr::Halt));
}

#[test]
fn instruction_failures() {
    assert_eq!(instr_of(&[]), Err(VmError::MalformedProgram));
    assert_eq!(instr_of(&[16]), Err(VmError::MalformedProgram));
    assert_eq!(instr_of(&[0]), Err(VmError::MalformedProgram));
    assert_eq!(instr_of(&[0, 9]), Err(VmError::MalformedProgram));
    assert_eq!(instr_of(&[2, 0, 0]), Err(VmError::MalformedProgram));
    assert_eq!(instr_of(&[3, 1]), Err(VmError::MalformedProgram));
    assert_eq!(instr_of(&[4, 6]), Err(VmError::MalformedProgram));
    assert_eq!(instr_of(&[4]), Err(VmError::MalformedProgram));
}

#[test]
fn decoding_moves_past_the_item_only() {
    let data = [0u8, 4, 0, 0, 0, 3, 15, 99];
    let mut cursor = ByteCursor::new(&data);
    assert_eq!(Instr::from_binary(&mut cursor), Ok(Instr::Push(Val::Vloc(3))));
    assert_eq!(cursor.remaining(), 2);
    assert_eq!(Instr::from_binary(&mut cursor), Ok(Instr::Halt));
    assert_eq!(cursor.remaining(), 1);
    assert_eq!(cursor.next(), Some(99));
}

#[test]
fn encoded_integers_decode_to_themselves() {
    let numbers = [0i32, 1, -1, 2, 255, 256, -256, 65_536, 1_000_000, -1_000_000, i32::MAX, i32::MIN];
    for n in numbers {
        let mut bytes = vec![1u8, 0, 0, 0, 0];
        BigEndian::write_i32(&mut bytes[1..], n);
        assert_eq!(val_of(&bytes), Ok(Val::Vi32(n)));
        let mut pushed = vec![0u8];
        pushed.extend_from_slice(&bytes);
        assert_eq!(instr_of(&pushed), Ok(Instr::Push(Val::Vi32(n))));
    }
    let places = [0u32, 1, 255, 256, 0x8000_0000, u32::MAX];
    for n in places {
        assert_eq!(val_of(&tagged(4, n)), Ok(Val::Vloc(n)));
        assert_eq!(instr_of(&tagged(2, n)), Ok(Instr::Peek(n)));
        assert_eq!(instr_of(&tagged(9, n)), Ok(Instr::Var(n)));
    }
}

#[test]
fn program_is_count_and_instructions() {
    let bytes = [0u8, 0, 0, 4, 0, 1, 0, 0, 0, 2, 0, 1, 0, 0, 0, 3, 4, 0, 15];
    assert_eq!(
        decode_program(&bytes),
        Ok(vec![
            Instr::Push(Val::Vi32(2)),
            Instr::Push(Val::Vi32(3)),
            Instr::Binary(Binop::Add),
            Instr::Halt,
        ])
    );
}

#[test]
fn empty_program() {
    assert_eq!(decode_program(&[0, 0, 0, 0]), Ok(vec![]));
}

#[test]
fn bytes_behind_the_program_are_not_read() {
    assert_eq!(decode_program(&[0, 0, 0, 1, 15, 200, 201]), Ok(vec![Instr::Halt]));
}

#[test]
fn malformed_programs() {
    assert_eq!(decode_program(&[]), Err(VmError::MalformedProgram));
    assert_eq!(decode_program(&[0, 0, 1]), Err(VmError::MalformedProgram));
    assert_eq!(decode_program(&[0, 0, 0, 2, 15]), Err(VmError::MalformedProgram));
    assert_eq!(decode_program(&[0, 0, 0, 1, 16]), Err(VmError::MalformedProgram));
    assert_eq!(decode_program(&[0, 0, 0, 2, 15, 0, 1, 0, 0]), Err(VmError::MalformedProgram));
    assert_eq!(decode_program(&[0xff, 0xff, 0xff, 0xff, 15]), Err(VmError::MalformedProgram));
}

fn every_kind_of_instruction() -> Vec<Instr> {
    vec![
        Instr::Push(Val::Vunit),
        Instr::Push(Val::Vi32(-123_456)),
        Instr::Push(Val::Vi32(i32::MIN)),
        Instr::Push(Val::Vbool(true)),
        Instr::Push(Val::Vbool(false)),
        Instr::Push(Val::Vloc(u32::MAX)),
        Instr::Push(Val::Vundef),
        Instr::Pop,
        Instr::Peek(3),
        Instr::Unary(Unop::Neg),
        Instr::Binary(Binop::Add),
        Instr::Binary(Binop::Mul),
        Instr::Binary(Binop::Sub),
        Instr::Binary(Binop::Div),
        Instr::Binary(Binop::Lt),
        Instr::Binary(Binop::Eq),
        Instr::Swap,
        Instr::Alloc,
        Instr::Put,
        Instr::Get,
        Instr::Var(0x0102_0304),
        Instr::Store(256),
        Instr::SetFrame(2),
        Instr::Call,
        Instr::Ret,
        Instr::Branch,
        Instr::Halt,
    ]
}

#[test]
fn integers_are_written_big_endian() {
    let mut out = vec![9u8];
    push_u32_be(&mut out, 0x0102_0304);
    assert_eq!(out, vec![9, 1, 2, 3, 4]);
    push_i32_be(&mut out, -2);
    assert_eq!(out, vec![9, 1, 2, 3, 4, 0xff, 0xff, 0xff, 0xfe]);
    for n in [0i32, 1, -1, 1_000_000, -1_000_000, i32::MAX, i32::MIN] {
        let mut ours = vec![];
        push_i32_be(&mut ours, n);
        let mut theirs = [0u8; 4];
        BigEndian::write_i32(&mut theirs, n);
        assert_eq!(ours, theirs);
    }
    for n in [0u32, 255, 256, 0x8000_0000, u32::MAX] {
        let mut ours = vec![];
        push_u32_be(&mut ours, n);
        let mut theirs = [0u8; 4];
        BigEndian::write_u32(&mut theirs, n);
        assert_eq!(ours, theirs);
    }
}

#[test]
fn known_encodings() {
    let mut out = vec![];
    assert!(Instr::Push(Val::Vi32(-2)).to_binary(&mut out));
    assert_eq!(out, vec![0, 1, 0xff, 0xff, 0xff, 0xfe]);
    let mut out = vec![];
    assert!(Val::Vloc(258).to_binary(&mut out));
    assert_eq!(out, vec![4, 0, 0, 1, 2]);
    let mut out = vec![7];
    assert!(Instr::Binary(Binop::Lt).to_binary(&mut out));
    assert!(Instr::Halt.to_binary(&mut out));
    assert_eq!(out, vec![7, 4, 4, 15]);
    assert_eq!(Binop::Div.tag(), 3);
}

#[test]
fn encoded_values_decode_to_themselves() {
    let values = [
        Val::Vunit,
        Val::Vi32(0),
        Val::Vi32(-1),
        Val::Vi32(i32::MAX),
        Val::Vi32(i32::MIN),
        Val::Vbool(true),
        Val::Vbool(false),
        Val::Vloc(0),
        Val::Vloc(u32::MAX),
        Val::Vundef,
    ];
    for v in values {
        let mut bytes = vec![];
        assert!(val_bytes_exist(&v));
        assert!(v.to_binary(&mut bytes));
        let written = bytes.len();
        bytes.push(0xaa);
        let mut cursor = ByteCursor::new(&bytes);
        assert_eq!(Val::from_binary(&mut cursor), Ok(v));
        assert_eq!(cursor.remaining(), 1);
        assert!(written == 1 || written == 5);
    }
}

#[test]
fn encoded_instructions_decode_to_themselves() {
    for i in every_kind_of_instruction() {
        let mut bytes = vec![];
        assert!(i.to_binary(&mut bytes));
        bytes.push(0xaa);
        let mut cursor = ByteCursor::new(&bytes);
        assert_eq!(Instr::from_binary(&mut cursor), Ok(i));
        assert_eq!(cursor.remaining(), 1);
    }
}

#[test]
fn encoded_program_decodes_to_itself() {
    let program = every_kind_of_instruction();
    let bytes = encode_program(&program).unwrap();
    assert_eq!(&bytes[0..4], &[0, 0, 0, 27]);
    assert_eq!(decode_program(&bytes), Ok(program));
    assert_eq!(encode_program(&vec![]), Some(vec![0, 0, 0, 0]));
}

#[test]
fn machine_values_have_no_bytes() {
    let mut out = vec![1u8, 2];
    assert!(!val_bytes_exist(&Val::Vsize(3)));
    assert!(!Val::Vsize(3).to_binary(&mut out));
    assert!(!Val::Vaddr(0).to_binary(&mut out));
    assert!(!Instr::Push(Val::Vaddr(0)).to_binary(&mut out));
    assert!(!Instr::Push(Val::Vsize(0)).to_binary(&mut out));
    assert_eq!(out, vec![1, 2]);
    assert_eq!(encode_program(&vec![Instr::Halt, Instr::Push(Val::Vaddr(1))]), None);
}

#[test]
fn a_failed_decode_reads_nothing() {
    let data = [0u8, 1, 0, 0];
    let mut cursor = ByteCursor::new(&data);
    assert_eq!(Instr::from_binary(&mut cursor), Err(VmError::MalformedProgram));
    assert_eq!(cursor.remaining(), 4);
    assert_eq!(cursor.next(), Some(0));
    assert_eq!(Val::from_binary(&mut cursor), Err(VmError::MalformedProgram));
    assert_eq!(cursor.remaining(), 3);
    assert_eq!(cursor.next(), Some(1));
    assert_eq!(i32::from_binary(&mut cursor), Err(VmError::MalformedProgram));
    assert_eq!(u32::from_binary(&mut cursor), Err(VmError::MalformedProgram));
    assert_eq!(cursor.remaining(), 2);
    let unknown = [9u8, 9];
    let mut cursor = ByteCursor::new(&unknown);
    assert_eq!(Unop::from_binary(&mut cursor), Err(VmError::MalformedProgram));
    assert_eq!(Binop::from_binary(&mut cursor), Err(VmError::MalformedProgram));
    assert_eq!(Val::from_binary(&mut cursor), Err(VmError::MalformedProgram));
    assert_eq!(cursor.remaining(), 2);
}
