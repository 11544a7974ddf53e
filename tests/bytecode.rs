use mm::{Disassembler, OpCode, Operand, Sequence, SequenceError, ToByte, Value};

#[test]
fn line_follows_each_append() {
    let mut seq = Sequence::new();
    let lines = [3u32, 3, 3, 7, 7, 1, 3, 3];
    for (i, l) in lines.iter().enumerate() {
        seq.push(i as u8, *l).unwrap();
    }
    for (i, l) in lines.iter().enumerate() {
        assert_eq!(seq.line(i), *l);
    }
    assert_eq!(seq.line(lines.len()), 0);
    assert_eq!(seq.line(usize::MAX), 0);
}

#[test]
fn write_constant_lines_cover_operands() {
    let mut seq = Sequence::new();
    seq.write_constant(Value::from_bits(1), 4).unwrap();
    seq.push(OpCode::Return, 5).unwrap();
    assert_eq!(seq.line(0), 4);
    assert_eq!(seq.line(1), 4);
    assert_eq!(seq.line(2), 5);
    assert_eq!(seq.line(3), 0);
}

#[test]
fn written_constant_reads_back() {
    let mut seq = Sequence::new();
    let mut offsets = Vec::new();
    for i in 0..300u32 {
        offsets.push(seq.code().len());
        seq.write_constant(Value::from_bits(i * 7 + 1), 1).unwrap();
    }
    for (i, offset) in offsets.iter().enumerate() {
        let ins = Disassembler::dis_instruction(&seq, *offset);
        let operand = ins.operand.unwrap();
        assert_eq!(operand.index, i);
        assert_eq!(operand.value, Value::from_bits(i as u32 * 7 + 1));
        assert_eq!(*seq.constant(operand.index), operand.value);
    }
}

#[test]
fn index_past_one_byte_switches_to_long_form() {
    let mut seq = Sequence::new();
    for i in 0..255u32 {
        seq.add_constant(Value::from_bits(i));
    }
    // the constant at index 255 still fits in one byte
    let at = seq.code().len();
    seq.write_constant(Value::from_bits(255), 9).unwrap();
    assert_eq!(&seq.code()[at..], &[1, 255]);
    // the constant at index 256 does not
    let at = seq.code().len();
    seq.write_constant(Value::from_bits(256), 9).unwrap();
    assert_eq!(&seq.code()[at..], &[2, 0, 1, 0]);
    let ins = Disassembler::dis_instruction(&seq, at);
    assert_eq!(ins.opcode, OpCode::ConstantLong);
    assert_eq!(ins.next, at + 4);
    assert_eq!(
        ins.operand,
        Some(Operand {
            index: 256,
            value: Value::from_bits(256)
        })
    );
}

#[test]
fn long_index_is_little_endian() {
    let mut seq = Sequence::new();
    for i in 0..0x1_0203u32 {
        seq.add_constant(Value::from_bits(i));
    }
    seq.write_constant(Value::from_bits(42), 1).unwrap();
    assert_eq!(seq.code(), &[2, 0x03, 0x02, 0x01]);
    assert_eq!(
        Disassembler::dis_instruction(&seq, 0).operand.unwrap().index,
        0x1_0203
    );
}

#[test]
fn push_rejects_wide_values() {
    let mut seq = Sequence::new();
    assert_eq!(seq.push(300usize, 1), Err(SequenceError::PushByte));
    assert!(seq.code().is_empty());
    assert_eq!(seq.line(0), 0);
    assert_eq!(seq.push(255usize, 1), Ok(()));
    assert_eq!(seq.code(), &[255]);
}

#[test]
fn opcode_bytes_round_trip() {
    for b in 0..=255u8 {
        let op = OpCode::from(b);
        assert_eq!(op.to_byte(), Ok(b));
    }
    assert_eq!(OpCode::from(5), OpCode::Sub);
    assert_eq!(OpCode::from(8), OpCode::Unknown(8));
    assert_eq!(OpCode::Div.to_byte(), Ok(7));
}

#[test]
fn read_constant_uses_code_byte_as_index() {
    let mut seq = Sequence::new();
    seq.add_constant(Value::from_bits(10));
    seq.add_constant(Value::from_bits(20));
    seq.push(1u8, 1).unwrap();
    assert_eq!(*seq.read_constant(0), Value::from_bits(20));
    assert_eq!(seq.add_constant(Value::from_bits(30)), 2);
}

#[test]
fn from_slice_keeps_bytes_on_line_zero() {
    let seq = Sequence::from_slice(&[0, 3, 4]);
    assert_eq!(seq.code(), &[0, 3, 4]);
    assert_eq!(seq.line(0), 0);
    assert_eq!(seq.line(2), 0);
}

#[test]
fn unknown_opcode_disassembles_and_advances_by_one() {
    let seq = Sequence::from_slice(&[9, 0]);
    let listing = Disassembler::dis_sequence(&seq);
    assert_eq!(listing.len(), 2);
    assert_eq!(listing[0].opcode, OpCode::Unknown(9));
    assert_eq!(listing[0].next, 1);
    assert_eq!(listing[0].line, Some(0));
    assert_eq!(listing[1].line, None);
    assert_eq!(listing[1].opcode, OpCode::Return);
}

#[test]
fn load_checks_find_out_of_pool_indexes() {
    let mut seq = Sequence::new();
    seq.write_constant(Value::from_bits(3), 1).unwrap();
    seq.push(OpCode::Return, 1).unwrap();
    assert!(seq.loads_in_range());
    assert!(seq.instruction_ok(0));
    assert_eq!(seq.constants(), &[Value::from_bits(3)]);

    let bad = Sequence::from_slice(&[1, 0]);
    assert!(!bad.instruction_ok(0));
    assert!(!bad.loads_in_range());
    let truncated = Sequence::from_slice(&[0, 2, 0]);
    assert!(truncated.instruction_ok(0));
    assert!(!truncated.instruction_ok(1));
    assert!(!truncated.loads_in_range());
    assert!(Sequence::new().loads_in_range());
    assert!(Disassembler::dis_sequence(&Sequence::new()).is_empty());
}
