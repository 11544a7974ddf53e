use mm::vm::InterpretError;
use mm::{Arithmetic, BinaryOp, Disassembler, OpCode, Sequence, Step, Value, VM};

/// Single-precision arithmetic, as the language defines it.
struct F32Ops;

fn num(v: Value) -> f32 {
    f32::from_bits(v.to_bits())
}

fn value(x: f32) -> Value {
    Value::from_bits(x.to_bits())
}

impl Arithmetic for F32Ops {
    fn negate(&self, v: Value) -> Value {
        value(-num(v))
    }

    fn binary(&self, op: BinaryOp, lhs: Value, rhs: Value) -> Value {
        let (a, b) = (num(lhs), num(rhs));
        value(match op {
            BinaryOp::Add => a + b,
            BinaryOp::Sub => a - b,
            BinaryOp::Mul => a * b,
            BinaryOp::Div => a / b,
        })
    }
}

fn run(seq: &Sequence) -> Result<Option<f32>, InterpretError> {
    let mut vm = VM::new(seq);
    vm.interpret(seq, &F32Ops).map(|r| r.map(num))
}

#[test]
fn debug_dis() {
    let mut seq = Sequence::new();
    seq.write_constant(value(1.2), 17).unwrap();
    seq.write_constant(value(13.9), 13).unwrap();
    seq.push(OpCode::Return, 17).unwrap();
    seq.push(OpCode::Return, 17).unwrap();
    seq.push(OpCode::Return, 17).unwrap();
    seq.push(OpCode::Return, 14).unwrap();
    seq.push(OpCode::Return, 14).unwrap();
    assert_eq!(run(&seq), Ok(Some(13.9)));

    let mut seq2 = Sequence::new();
    seq2.write_constant(value(1.2), 99).unwrap();
    seq2.push(OpCode::Return, 1119).unwrap();
    seq2.write_constant(value(1119.9), 1119).unwrap();
    seq2.push(OpCode::Return, 99).unwrap();
    seq2.push(OpCode::Return, 99).unwrap();
    seq2.push(OpCode::Return, 99).unwrap();
    seq2.push(OpCode::Return, 14).unwrap();
    seq2.push(OpCode::Return, 14).unwrap();

    let listing = Disassembler::dis_sequence(&seq);
    let offsets: Vec<usize> = listing.iter().map(|i| i.offset).collect();
    assert_eq!(offsets, vec![0, 2, 4, 5, 6, 7, 8]);
    let lines: Vec<Option<u32>> = listing.iter().map(|i| i.line).collect();
    assert_eq!(lines, vec![Some(17), Some(13), Some(17), None, None, Some(14), None]);
    assert_eq!(listing[1].operand.unwrap().index, 1);
    assert_eq!(num(listing[1].operand.unwrap().value), 13.9);

    let listing2 = Disassembler::dis_sequence(&seq2);
    let ops: Vec<OpCode> = listing2.iter().map(|i| i.opcode).collect();
    assert_eq!(
        ops,
        vec![
            OpCode::Constant,
            OpCode::Return,
            OpCode::Constant,
            OpCode::Return,
            OpCode::Return,
            OpCode::Return,
            OpCode::Return,
            OpCode::Return
        ]
    );
    let lines2: Vec<Option<u32>> = listing2.iter().map(|i| i.line).collect();
    assert_eq!(
        lines2,
        vec![Some(99), Some(1119), None, Some(99), None, None, Some(14), None]
    );
}

#[test]
fn negate() {
    let mut seq = Sequence::new();
    seq.write_constant(value(1.2), 17).unwrap();
    seq.push(OpCode::Negate, 17).unwrap();
    seq.push(OpCode::Return, 18).unwrap();
    assert_eq!(run(&seq), Ok(Some(-1.2)));
}

#[test]
fn add() {
    let mut seq = Sequence::new();
    seq.write_constant(value(90.0), 17).unwrap();
    seq.write_constant(value(10.0), 17).unwrap();
    seq.push(OpCode::Add, 17).unwrap();
    seq.push(OpCode::Return, 18).unwrap();
    assert_eq!(run(&seq), Ok(Some(100.0)));
}

#[test]
fn add_neg_int() {
    let mut seq = Sequence::new();
    seq.write_constant(value(90.0), 17).unwrap();
    seq.write_constant(value(10.0), 17).unwrap();
    seq.push(OpCode::Add, 17).unwrap();
    seq.write_constant(value(100.0), 19).unwrap();
    seq.push(OpCode::Negate, 19).unwrap();
    seq.push(OpCode::Add, 20).unwrap();
    seq.push(OpCode::Return, 21).unwrap();
    assert_eq!(run(&seq), Ok(Some(0.0)));
}

#[test]
fn sub() {
    let mut seq = Sequence::new();
    seq.write_constant(value(110.0), 17).unwrap();
    seq.write_constant(value(23.0), 17).unwrap();
    seq.push(OpCode::Sub, 17).unwrap();
    seq.push(OpCode::Return, 18).unwrap();
    assert_eq!(run(&seq), Ok(Some(87.0)));
}

#[test]
fn sub_neg_int() {
    let mut seq = Sequence::new();
    seq.write_constant(value(30.0), 17).unwrap();
    seq.write_constant(value(250.0), 17).unwrap();
    seq.push(OpCode::Negate, 17).unwrap();
    seq.push(OpCode::Sub, 20).unwrap();
    seq.push(OpCode::Return, 21).unwrap();
    assert_eq!(run(&seq), Ok(Some(280.0)));
}

#[test]
fn mul() {
    let mut seq = Sequence::new();
    seq.write_constant(value(54.0), 17).unwrap();
    seq.write_constant(value(8.0), 17).unwrap();
    seq.push(OpCode::Add, 17).unwrap();
    seq.write_constant(value(360.0), 17).unwrap();
    seq.push(OpCode::Mul, 17).unwrap();
    seq.push(OpCode::Return, 18).unwrap();
    assert_eq!(run(&seq), Ok(Some(22320.0)));
}

#[test]
fn div() {
    let mut seq = Sequence::new();
    seq.write_constant(value(30.0), 17).unwrap();
    seq.write_constant(value(60.0), 17).unwrap();
    seq.push(OpCode::Div, 17).unwrap();
    seq.push(OpCode::Return, 21).unwrap();
    assert_eq!(run(&seq), Ok(Some(0.5)));
}

#[test]
fn precedence_check1() {
    // 1 + 2 * 3
    let mut seq = Sequence::new();
    seq.write_constant(value(1.0), 17).unwrap();
    seq.write_constant(value(2.0), 17).unwrap();
    seq.write_constant(value(3.0), 17).unwrap();
    seq.push(OpCode::Mul, 17).unwrap();
    seq.push(OpCode::Add, 17).unwrap();
    seq.push(OpCode::Return, 21).unwrap();
    assert_eq!(run(&seq), Ok(Some(7.0)));
}

#[test]
fn precedence_check2() {
    // 1 + 2 * 3 - 4 / -5
    let mut seq = Sequence::new();
    seq.write_constant(value(1.0), 17).unwrap();
    seq.write_constant(value(2.0), 17).unwrap();
    seq.write_constant(value(3.0), 17).unwrap();
    seq.push(OpCode::Mul, 17).unwrap();
    seq.push(OpCode::Add, 17).unwrap();
    seq.write_constant(value(-4.0), 17).unwrap();
    seq.write_constant(value(-5.0), 17).unwrap();
    seq.push(OpCode::Div, 17).unwrap();
    seq.push(OpCode::Add, 17).unwrap();
    seq.push(OpCode::Return, 21).unwrap();
    let expected = (1.0f32 + 2.0f32 * 3.0f32) + (-4.0f32 / -5.0f32);
    assert_eq!(run(&seq), Ok(Some(expected)));
    assert!((expected - 7.8).abs() < 1e-5);
}

#[test]
fn no_op_negate() {
    // 4 - 3 * -2 without the negate operator
    let mut seq = Sequence::new();
    seq.write_constant(value(4.0), 17).unwrap();
    seq.write_constant(value(0.0), 17).unwrap();
    seq.write_constant(value(3.0), 17).unwrap();
    seq.push(OpCode::Sub, 17).unwrap();
    seq.write_constant(value(0.0), 17).unwrap();
    seq.write_constant(value(2.0), 17).unwrap();
    seq.push(OpCode::Sub, 17).unwrap();
    seq.push(OpCode::Mul, 17).unwrap();
    seq.push(OpCode::Add, 17).unwrap();
    seq.push(OpCode::Return, 21).unwrap();
    assert_eq!(run(&seq), Ok(Some(10.0)));
}

#[test]
fn no_op_subtract() {
    // 4 - 3 * -2 without the subtraction operator
    let mut seq = Sequence::new();
    seq.write_constant(value(4.0), 17).unwrap();
    seq.write_constant(value(3.0), 17).unwrap();
    seq.push(OpCode::Negate, 17).unwrap();
    seq.write_constant(value(2.0), 17).unwrap();
    seq.push(OpCode::Negate, 17).unwrap();
    seq.push(OpCode::Mul, 17).unwrap();
    seq.push(OpCode::Add, 17).unwrap();
    seq.push(OpCode::Return, 21).unwrap();
    assert_eq!(run(&seq), Ok(Some(10.0)));
}

#[test]
fn single_constant_returns_it() {
    let mut seq = Sequence::new();
    seq.write_constant(value(1.2), 1).unwrap();
    seq.push(OpCode::Return, 1).unwrap();
    let mut vm = VM::new(&seq);
    assert_eq!(vm.interpret(&seq, &F32Ops), Ok(Some(value(1.2))));
    assert!(vm.stack().is_empty());
}

#[test]
fn ninety_plus_ten() {
    let mut seq = Sequence::new();
    seq.write_constant(value(90.0), 1).unwrap();
    seq.write_constant(value(10.0), 1).unwrap();
    seq.push(OpCode::Add, 1).unwrap();
    seq.push(OpCode::Return, 1).unwrap();
    assert_eq!(run(&seq), Ok(Some(100.0)));
}

#[test]
fn return_on_empty_stack_fails() {
    let mut seq = Sequence::new();
    seq.push(OpCode::Return, 1).unwrap();
    assert_eq!(run(&seq), Err(InterpretError::StackEmpty));
}

#[test]
fn subtraction_takes_left_operand_first() {
    let mut seq = Sequence::new();
    seq.write_constant(value(5.0), 1).unwrap();
    seq.write_constant(value(3.0), 1).unwrap();
    seq.push(OpCode::Sub, 1).unwrap();
    seq.push(OpCode::Return, 1).unwrap();
    assert_eq!(run(&seq), Ok(Some(2.0)));

    let mut vm = VM::new(&seq);
    assert_eq!(vm.step(), Ok(Step::Loaded));
    assert_eq!(vm.step(), Ok(Step::Loaded));
    assert_eq!(vm.step(), Ok(Step::Binary(BinaryOp::Sub, value(5.0), value(3.0))));
    assert!(vm.stack().is_empty());
    assert_eq!(vm.offset(), 5);
}

#[test]
fn binary_with_one_operand_fails_and_keeps_stack() {
    let mut seq = Sequence::new();
    seq.write_constant(value(5.0), 1).unwrap();
    seq.push(OpCode::Mul, 1).unwrap();
    let mut vm = VM::new(&seq);
    assert_eq!(vm.step(), Ok(Step::Loaded));
    assert_eq!(vm.step(), Err(InterpretError::StackEmpty));
    assert_eq!(vm.stack(), &[value(5.0)]);
    assert_eq!(run(&seq), Err(InterpretError::StackEmpty));
}

#[test]
fn negate_on_empty_stack_fails() {
    let mut seq = Sequence::new();
    seq.push(OpCode::Negate, 1).unwrap();
    assert_eq!(run(&seq), Err(InterpretError::StackEmpty));
}

#[test]
fn unknown_opcode_faults() {
    let mut seq = Sequence::new();
    seq.write_constant(value(5.0), 1).unwrap();
    seq.push(200u8, 1).unwrap();
    seq.push(OpCode::Return, 1).unwrap();
    assert_eq!(run(&seq), Err(InterpretError::UnknownOpCode(200)));
}

#[test]
fn code_without_return_finishes_with_nothing() {
    let mut seq = Sequence::new();
    seq.write_constant(value(5.0), 1).unwrap();
    let mut vm = VM::new(&seq);
    assert_eq!(vm.interpret(&seq, &F32Ops), Ok(None));
    assert_eq!(vm.stack(), &[value(5.0)]);
    vm.reset_stack();
    assert!(vm.stack().is_empty());
    assert_eq!(run(&Sequence::new()), Ok(None));
}

#[test]
fn division_by_zero_is_infinite() {
    let mut seq = Sequence::new();
    seq.write_constant(value(1.0), 1).unwrap();
    seq.write_constant(value(0.0), 1).unwrap();
    seq.push(OpCode::Div, 1).unwrap();
    seq.push(OpCode::Return, 1).unwrap();
    assert_eq!(run(&seq), Ok(Some(f32::INFINITY)));
}

#[test]
fn long_constants_are_loaded() {
    let mut seq = Sequence::new();
    for i in 0..300u16 {
        seq.add_constant(value(f32::from(i)));
    }
    seq.write_constant(value(7.5), 2).unwrap();
    seq.push(OpCode::Return, 2).unwrap();
    assert_eq!(seq.code()[0], 2);
    assert_eq!(run(&seq), Ok(Some(7.5)));
}

#[test]
fn pop_stack_reports_empty() {
    let seq = Sequence::new();
    let mut vm = VM::new(&seq);
    assert_eq!(vm.pop_stack(), Err(InterpretError::StackEmpty));
    vm.push_stack(value(2.0));
    assert_eq!(vm.pop_stack(), Ok(value(2.0)));
}
