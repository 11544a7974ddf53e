//! Decoding of instructions for display.
use vstd::prelude::*;
use crate::bytecode::{
    OpCode, Sequence, opcode_of, width, operand_index, load_ok, loads_valid_from,
};
use crate::value::Value;

verus! {

/// Reads sequences back as instructions.
#[derive(Debug, Default)]
pub struct Disassembler;

/// The operand of a load: a constant index and the constant it designates.
#[derive(Debug, Clone, Copy, PartialEq, Eq, Structural)]
pub struct Operand {
    pub index: usize,
    pub value: Value,
}

/// One decoded instruction.
#[derive(Debug, Clone, Copy, PartialEq, Eq, Structural)]
pub struct Instruction {
    /// Offset of the opcode byte.
    pub offset: usize,
    /// Source line, or `None` when it is the line of the byte before.
    pub line: Option<u32>,
    pub opcode: OpCode,
    /// For loads, the constant index and the constant it designates.
    pub operand: Option<Operand>,
    /// Offset of the next instruction.
    pub next: usize,
}

/// The line shown for the byte at `offset`: none when it repeats the line
/// of the byte before.
pub open spec fn line_mark(s: Sequence, offset: int) -> Option<u32> {
    if offset > 0 && s.line_at(offset) == s.line_at(offset - 1) {
        None
    } else {
        Some(s.line_at(offset))
    }
}

/// The instruction decoded at `offset` of `s`.
pub open spec fn decoded(s: Sequence, offset: int) -> Instruction {
    let code = s.code_view();
    let op = opcode_of(code[offset]);
    Instruction {
        offset: offset as usize,
        line: line_mark(s, offset),
        opcode: op,
        operand: if op is Constant || op is ConstantLong {
            let idx = operand_index(code, offset);
            Some(Operand { index: idx as usize, value: s.constants_view()[idx as int] })
        } else {
            None
        },
        next: (offset + width(op)) as usize,
    }
}

/// A constant written with `write_constant` reads back: the instruction
/// emitted at the old end of the code decodes to a load of the new index,
/// which designates the value written, and it ends where the code ends.
pub proof fn lemma_write_constant_round_trip(before: Sequence, after: Sequence, value: Value)
    requires
        before.constants_view().len() <= crate::bytecode::MAX_LONG_INDEX,
        after.code_view() == before.code_view() + crate::bytecode::load_instruction(
            before.constants_view().len(),
        ),
        after.constants_view() == before.constants_view().push(value),
        after.code_view().len() <= usize::MAX,
    ensures
        ({
            let at = before.code_view().len() as int;
            &&& load_ok(after.code_view(), after.constants_view().len(), at)
            &&& decoded(after, at).operand == Some(
                Operand { index: before.constants_view().len() as usize, value },
            )
            &&& decoded(after, at).next == after.code_view().len()
        }),
{
    let idx = before.constants_view().len();
    let at = before.code_view().len() as int;
    let code = after.code_view();
    let ins = crate::bytecode::load_instruction(idx);
    assert(code[at] == ins[0]);
    if idx > 0xff {
        assert(code[at + 1] == ins[1] && code[at + 2] == ins[2] && code[at + 3] == ins[3]);
        let i = idx as int;
        assert((i % 256) + 256 * ((i / 256) % 256) + 65536 * (i / 65536) == i
            && i / 65536 < 256) by (nonlinear_arith)
            requires
                0 <= i <= 0xff_ffff,
        ;
        assert(operand_index(code, at) == idx);
    } else {
        assert(code[at + 1] == ins[1]);
        assert(operand_index(code, at) == idx);
    }
    assert(load_ok(code, after.constants_view().len(), at));
}

impl Instruction {
    /// An instruction without operand at `offset`.
    pub fn simple(opcode: OpCode, offset: usize, line: Option<u32>) -> (r: Instruction)
        requires
            offset < usize::MAX,
        ensures
            r == (Instruction { offset, line, opcode, operand: None, next: (offset + 1) as usize }),
    {
        Instruction { offset, line, opcode, operand: None, next: offset + 1 }
    }

    /// The `Constant` instruction at `offset`, whose operand is one byte.
    pub fn constant(sequence: &Sequence, offset: usize, line: Option<u32>) -> (r: Instruction)
        requires
            offset + 1 < sequence.code_view().len(),
            (sequence.code_view()[offset + 1] as int) < sequence.constants_view().len(),
        ensures
            ({
                let idx = sequence.code_view()[offset + 1];
                r == Instruction {
                    offset,
                    line,
                    opcode: OpCode::Constant,
                    operand: Some(Operand { index: idx as usize, value: sequence.constants_view()[idx as int] }),
                    next: (offset + 2) as usize,
                }
            }),
    {
        let code = sequence.code();
        let _n = code.len();
        let idx = code[offset + 1];
        let constant = *sequence.constant(idx as usize);
        Instruction {
            offset,
            line,
            opcode: OpCode::Constant,
            operand: Some(Operand { index: idx as usize, value: constant }),
            next: offset + 2,
        }
    }

    /// The `ConstantLong` instruction at `offset`, whose operand is three
    /// bytes, little endian.
    pub fn constant_long(sequence: &Sequence, offset: usize, line: Option<u32>) -> (r:
        Instruction)
        requires
            offset + 3 < sequence.code_view().len(),
            crate::bytecode::long_index(
                sequence.code_view()[offset + 1],
                sequence.code_view()[offset + 2],
                sequence.code_view()[offset + 3],
            ) < sequence.constants_view().len(),
        ensures
            ({
                let c = sequence.code_view();
                let idx = crate::bytecode::long_index(c[offset + 1], c[offset + 2], c[offset + 3]);
                r == Instruction {
                    offset,
                    line,
                    opcode: OpCode::ConstantLong,
                    operand: Some(Operand { index: idx as usize, value: sequence.constants_view()[idx as int] }),
                    next: (offset + 4) as usize,
                }
            }),
    {
        let code = sequence.code();
        let _n = code.len();
        let idx: usize = code[offset + 1] as usize + 256 * (code[offset + 2] as usize) + 65536 * (
        code[offset + 3] as usize);
        let constant = *sequence.constant(idx);
        Instruction {
            offset,
            line,
            opcode: OpCode::ConstantLong,
            operand: Some(Operand { index: idx, value: constant }),
            next: offset + 4,
        }
    }
}

impl Disassembler {
    pub fn new() -> (r: Disassembler)
        ensures
            r == Disassembler,
    {
        Disassembler
    }

    /// Decodes the instruction at `offset`.
    pub fn dis_instruction(sequence: &Sequence, offset: usize) -> (r: Instruction)
        requires
            sequence.wf(),
            offset < sequence.code_view().len(),
            load_ok(sequence.code_view(), sequence.constants_view().len(), offset as int),
        ensures
            r == decoded(*sequence, offset as int),
    {
        let line = sequence.line(offset);
        let line = if offset > 0 && line == sequence.line(offset - 1) {
            None
        } else {
            Some(line)
        };
        let opcode = OpCode::from(sequence.code()[offset]);
        match opcode {
            OpCode::Constant => Instruction::constant(sequence, offset, line),
            OpCode::ConstantLong => Instruction::constant_long(sequence, offset, line),
            _ => Instruction::simple(opcode, offset, line),
        }
    }

    /// Decodes every instruction of `sequence`, in order.
    pub fn dis_sequence(sequence: &Sequence) -> (r: Vec<Instruction>)
        requires
            sequence.wf(),
            sequence.loads_valid(),
        ensures
            (r@.len() == 0) == (sequence.code_view().len() == 0),
            r@.len() > 0 ==> r@[0].offset == 0,
            forall|i: int|
                0 <= i < r@.len() ==> #[trigger] r@[i] == decoded(*sequence, r@[i].offset as int),
            forall|i: int| 0 <= i < r@.len() - 1 ==> #[trigger] r@[i].next == r@[i + 1].offset,
            r@.len() > 0 ==> r@.last().next == sequence.code_view().len(),
    {
        let code = sequence.code();
        let mut out: Vec<Instruction> = Vec::new();
        let mut offset: usize = 0;
        while offset < code.len()
            invariant
                sequence.wf(),
                code@ == sequence.code_view(),
                offset <= code@.len(),
                loads_valid_from(code@, sequence.constants_view().len(), offset as nat),
                out@.len() > 0 ==> out@[0].offset == 0,
                out@.len() == 0 ==> offset == 0,
                out@.len() > 0 ==> offset > 0,
                out@.len() > 0 ==> out@.last().next == offset,
                forall|i: int|
                    0 <= i < out@.len() ==> #[trigger] out@[i] == decoded(
                        *sequence,
                        out@[i].offset as int,
                    ),
                forall|i: int|
                    0 <= i < out@.len() - 1 ==> #[trigger] out@[i].next == out@[i + 1].offset,
            decreases code@.len() - offset,
        {
            let ins = Self::dis_instruction(sequence, offset);
            out.push(ins);
            offset = ins.next;
        }
        out
    }
}

} // verus!
