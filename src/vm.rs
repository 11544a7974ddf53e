//! The stack-based virtual machine.
use vstd::prelude::*;
use crate::bytecode::{
    OpCode, Sequence, opcode_of, width, operand_index, load_ok, loads_valid_from,
};
use crate::value::Value;

verus! {

/// The four binary arithmetic operators.
#[derive(Debug, Clone, Copy, PartialEq, Eq, Structural)]
pub enum BinaryOp {
    Add,
    Sub,
    Mul,
    Div,
}

/// Arithmetic on values, as the machine's client defines it.
pub trait Arithmetic {
    /// The negation of `value`.
    fn negate(&self, value: Value) -> Value;

    /// `lhs op rhs`.
    fn binary(&self, op: BinaryOp, lhs: Value, rhs: Value) -> Value;
}

/// What one instruction asks of the machine's client.
#[derive(Debug, Clone, Copy, PartialEq, Eq, Structural)]
pub enum Step {
    /// A constant was pushed; nothing to do.
    Loaded,
    /// The operand was popped; its negation is to be pushed.
    Negate(Value),
    /// Both operands were popped, left one first in the order of pushing;
    /// `lhs op rhs` is to be pushed.
    Binary(BinaryOp, Value, Value),
    /// The result was popped: the program is done.
    Halt(Value),
}

/// How a run ends, whatever values it computes.
#[derive(Debug, Clone, Copy, PartialEq, Eq, Structural)]
pub enum Outcome {
    /// A `Return` found a value to return.
    Halted,
    /// The code ended without a `Return`.
    Finished,
    /// The run stopped on an error.
    Fault(InterpretError),
}

/// The operator of a binary arithmetic opcode.
pub open spec fn binary_op(op: OpCode) -> Option<BinaryOp> {
    match op {
        OpCode::Add => Some(BinaryOp::Add),
        OpCode::Sub => Some(BinaryOp::Sub),
        OpCode::Mul => Some(BinaryOp::Mul),
        OpCode::Div => Some(BinaryOp::Div),
        _ => None,
    }
}

/// The effect of the instruction at `offset` on a machine whose stack is
/// `stack`: what is asked of the client, the next offset and the stack left.
pub open spec fn step_spec(code: Seq<u8>, consts: Seq<Value>, offset: int, stack: Seq<Value>) -> (
    Result<Step, InterpretError>,
    int,
    Seq<Value>,
) {
    let op = opcode_of(code[offset]);
    match op {
        OpCode::Return => if stack.len() == 0 {
            (Err(InterpretError::StackEmpty), offset + 1, stack)
        } else {
            (Ok(Step::Halt(stack.last())), offset + 1, stack.drop_last())
        },
        OpCode::Constant => (
            Ok(Step::Loaded),
            offset + 2,
            stack.push(consts[operand_index(code, offset) as int]),
        ),
        OpCode::ConstantLong => (
            Ok(Step::Loaded),
            offset + 4,
            stack.push(consts[operand_index(code, offset) as int]),
        ),
        OpCode::Negate => if stack.len() == 0 {
            (Err(InterpretError::StackEmpty), offset + 1, stack)
        } else {
            (Ok(Step::Negate(stack.last())), offset + 1, stack.drop_last())
        },
        OpCode::Unknown(b) => (Err(InterpretError::UnknownOpCode(b)), offset + 1, stack),
        _ => if stack.len() < 2 {
            (Err(InterpretError::StackEmpty), offset + 1, stack)
        } else {
            (
                Ok(Step::Binary(binary_op(op)->Some_0, stack[stack.len() - 2], stack.last())),
                offset + 1,
                stack.take(stack.len() - 2),
            )
        },
    }
}

/// How a run from `offset` with `depth` values on the stack ends, and how
/// many values it leaves on the stack. Only the number of values on the stack
/// decides it, not the values.
pub open spec fn run_shape(code: Seq<u8>, offset: nat, depth: nat) -> (Outcome, nat)
    decreases code.len() + 4 - offset,
{
    if offset >= code.len() {
        (Outcome::Finished, depth)
    } else {
        let op = opcode_of(code[offset as int]);
        let next = offset + width(op);
        match op {
            OpCode::Return => if depth == 0 {
                (Outcome::Fault(InterpretError::StackEmpty), depth)
            } else {
                (Outcome::Halted, (depth - 1) as nat)
            },
            OpCode::Constant => run_shape(code, next, depth + 1),
            OpCode::ConstantLong => run_shape(code, next, depth + 1),
            OpCode::Negate => if depth == 0 {
                (Outcome::Fault(InterpretError::StackEmpty), depth)
            } else {
                run_shape(code, next, depth)
            },
            OpCode::Unknown(b) => (Outcome::Fault(InterpretError::UnknownOpCode(b)), depth),
            _ => if depth < 2 {
                (Outcome::Fault(InterpretError::StackEmpty), depth)
            } else {
                run_shape(code, next, (depth - 1) as nat)
            },
        }
    }
}

/// A run from `offset` with stack `stack`, in which the client answers the
/// arithmetic steps, in order, with the values of `results`: what the run
/// returns and the stack it leaves.
pub open spec fn run_spec(
    code: Seq<u8>,
    consts: Seq<Value>,
    offset: nat,
    stack: Seq<Value>,
    results: Seq<Value>,
) -> (Result<Option<Value>, InterpretError>, Seq<Value>)
    decreases code.len() + 4 - offset,
{
    if offset >= code.len() {
        (Ok(None), stack)
    } else {
        let (step, next, left) = step_spec(code, consts, offset as int, stack);
        let next = if next < 0 {
            0
        } else {
            next as nat
        };
        match step {
            Err(e) => (Err(e), left),
            Ok(Step::Halt(v)) => (Ok(Some(v)), left),
            Ok(Step::Loaded) => if next > offset {
                run_spec(code, consts, next, left, results)
            } else {
                (Ok(None), left)
            },
            _ => if next > offset && results.len() > 0 {
                run_spec(code, consts, next, left.push(results[0]), results.drop_first())
            } else {
                (Ok(None), left)
            },
        }
    }
}

/// The number of values on the stack after running the instructions from
/// `offset` up to `end`, when they only load and compute, never pop an empty
/// stack, and end exactly at `end`.
pub open spec fn body_depth(code: Seq<u8>, offset: nat, end: nat, depth: nat) -> Option<nat>
    decreases end + 4 - offset,
{
    if offset >= end {
        if offset == end {
            Some(depth)
        } else {
            None
        }
    } else {
        let op = opcode_of(code[offset as int]);
        let next = offset + width(op);
        match op {
            OpCode::Constant => body_depth(code, next, end, depth + 1),
            OpCode::ConstantLong => body_depth(code, next, end, depth + 1),
            OpCode::Negate => if depth == 0 {
                None
            } else {
                body_depth(code, next, end, depth)
            },
            OpCode::Return => None,
            OpCode::Unknown(_) => None,
            _ => if depth < 2 {
                None
            } else {
                body_depth(code, next, end, (depth - 1) as nat)
            },
        }
    }
}

proof fn lemma_body_then_return(code: Seq<u8>, offset: nat, depth: nat)
    requires
        code.len() > 0,
        opcode_of(code.last()) is Return,
        body_depth(code, offset, (code.len() - 1) as nat, depth) == Some(1nat),
    ensures
        run_shape(code, offset, depth) == (Outcome::Halted, 0nat),
    decreases code.len() + 4 - offset,
{
    let end = (code.len() - 1) as nat;
    if offset < end {
        let op = opcode_of(code[offset as int]);
        let next = offset + width(op);
        match op {
            OpCode::Constant => lemma_body_then_return(code, next, depth + 1),
            OpCode::ConstantLong => lemma_body_then_return(code, next, depth + 1),
            OpCode::Negate => lemma_body_then_return(code, next, depth),
            OpCode::Return => {},
            OpCode::Unknown(_) => {},
            _ => lemma_body_then_return(code, next, (depth - 1) as nat),
        }
    }
}

/// A sequence made of instructions that only load and compute, never popping
/// an empty stack and leaving exactly one value, followed by a `Return`, runs
/// from an empty stack to that `Return`, which pops the one value and leaves
/// the stack empty.
pub proof fn lemma_well_formed_run_halts(code: Seq<u8>)
    requires
        code.len() > 0,
        opcode_of(code.last()) is Return,
        body_depth(code, 0, (code.len() - 1) as nat, 0) == Some(1nat),
    ensures
        run_shape(code, 0, 0) == (Outcome::Halted, 0nat),
{
    lemma_body_then_return(code, 0, 0);
}

/// A `Return` on an empty stack fails with `StackEmpty`.
pub proof fn lemma_empty_return_fails(code: Seq<u8>, consts: Seq<Value>, offset: nat)
    requires
        offset < code.len(),
        opcode_of(code[offset as int]) is Return,
    ensures
        run_shape(code, offset, 0) == (Outcome::Fault(InterpretError::StackEmpty), 0nat),
        step_spec(code, consts, offset as int, Seq::empty()).0 == Err::<Step, InterpretError>(
            InterpretError::StackEmpty,
        ),
{
}

/// Binary operators take their left operand from below the right one: with
/// `a` pushed before `b`, the instruction hands out `a` as left operand and
/// `b` as right one, and pops both. For `Sub` the result pushed is `a - b`.
pub proof fn lemma_binary_operand_order(
    code: Seq<u8>,
    consts: Seq<Value>,
    offset: int,
    stack: Seq<Value>,
    a: Value,
    b: Value,
)
    requires
        0 <= offset < code.len(),
        binary_op(opcode_of(code[offset])) is Some,
    ensures
        step_spec(code, consts, offset, stack.push(a).push(b)) == (
            Ok::<Step, InterpretError>(Step::Binary(binary_op(opcode_of(code[offset]))->Some_0, a, b)),
            offset + 1,
            stack,
        ),
{
    let st = stack.push(a).push(b);
    assert(st.take(st.len() - 2) =~= stack);
}

/// After an arithmetic step at `offset` answered with `result`, the runs
/// that answered the steps before with `used` go on with the rest of their
/// answers.
proof fn lemma_run_spec_answer(
    code: Seq<u8>,
    consts: Seq<Value>,
    offset: nat,
    stack: Seq<Value>,
    used: Seq<Value>,
    result: Value,
)
    requires
        offset < code.len(),
        load_ok(code, consts.len(), offset as int),
        step_spec(code, consts, offset as int, stack).0 matches Ok(s) && (s is Negate || s is Binary),
    ensures
        forall|rest: Seq<Value>|
            #[trigger] run_spec(code, consts, offset, stack, seq![result] + rest) == run_spec(
                code,
                consts,
                (offset + 1) as nat,
                step_spec(code, consts, offset as int, stack).2.push(result),
                rest,
            ),
        forall|rest: Seq<Value>| #[trigger] (used.push(result) + rest) == used + (seq![result] + rest),
{
    assert forall|rest: Seq<Value>|
        #[trigger] run_spec(code, consts, offset, stack, seq![result] + rest) == run_spec(
            code,
            consts,
            (offset + 1) as nat,
            step_spec(code, consts, offset as int, stack).2.push(result),
            rest,
        ) by {
        assert((seq![result] + rest)[0] == result);
        assert((seq![result] + rest).drop_first() =~= rest);
    }
    assert forall|rest: Seq<Value>| #[trigger] (used.push(result) + rest) == used + (seq![result] + rest) by {
        assert(used.push(result) + rest =~= used + (seq![result] + rest));
    }
}

/// A machine executing one sequence.
pub struct VM<'vm> {
    sequence: &'vm Sequence,
    /// Offset of the next opcode to execute.
    offset: usize,
    stack: Vec<Value>,
}

impl<'vm> VM<'vm> {
    /// The sequence being executed.
    pub closed spec fn sequence_view(&self) -> Sequence {
        *self.sequence
    }

    /// Offset of the next opcode to execute.
    pub closed spec fn offset_view(&self) -> nat {
        self.offset as nat
    }

    /// The operand stack, bottom first.
    pub closed spec fn stack_view(&self) -> Seq<Value> {
        self.stack@
    }

    /// A machine at the start of `sequence`, with an empty stack.
    pub fn new(sequence: &'vm Sequence) -> (r: VM<'vm>)
        ensures
            r.sequence_view() == *sequence,
            r.offset_view() == 0,
            r.stack_view() == Seq::<Value>::empty(),
    {
        VM { sequence, offset: 0, stack: Vec::new() }
    }

    /// Executes the instruction at the offset, except the arithmetic, which
    /// is left to the caller: a `Negate` or `Binary` step pops the operands
    /// and hands them out, and the caller pushes the result.
    ///
    /// On an error the offset has moved past the opcode and the stack is
    /// unchanged.
    pub fn step(&mut self) -> (r: Result<Step, InterpretError>)
        requires
            old(self).offset_view() < old(self).sequence_view().code_view().len(),
            load_ok(
                old(self).sequence_view().code_view(),
                old(self).sequence_view().constants_view().len(),
                old(self).offset_view() as int,
            ),
        ensures
            final(self).sequence_view() == old(self).sequence_view(),
            (r, final(self).offset_view() as int, final(self).stack_view()) == step_spec(
                old(self).sequence_view().code_view(),
                old(self).sequence_view().constants_view(),
                old(self).offset_view() as int,
                old(self).stack_view(),
            ),
    {
        let code = self.sequence.code();
        let _n = code.len();
        let byte = code[self.offset];
        self.offset = self.offset + 1;
        match OpCode::from(byte) {
            OpCode::Return => match self.pop_stack() {
                Ok(v) => Ok(Step::Halt(v)),
                Err(e) => Err(e),
            },
            OpCode::Constant => {
                let v = *self.sequence.read_constant(self.offset);
                self.stack.push(v);
                self.offset = self.offset + 1;
                Ok(Step::Loaded)
            },
            OpCode::ConstantLong => {
                let o = self.offset;
                let idx: usize = code[o] as usize + 256 * (code[o + 1] as usize) + 65536 * (code[o
                    + 2] as usize);
                let v = *self.sequence.constant(idx);
                self.stack.push(v);
                self.offset = self.offset + 3;
                Ok(Step::Loaded)
            },
            OpCode::Negate => match self.pop_stack() {
                Ok(v) => Ok(Step::Negate(v)),
                Err(e) => Err(e),
            },
            OpCode::Unknown(b) => Err(InterpretError::UnknownOpCode(b)),
            op => {
                if self.stack.len() < 2 {
                    return Err(InterpretError::StackEmpty);
                }
                let ghost st = self.stack@;
                let rhs = self.stack.pop().unwrap();
                let lhs = self.stack.pop().unwrap();
                proof {
                    assert(self.stack@ =~= st.take(st.len() - 2));
                }
                let bop = match op {
                    OpCode::Add => BinaryOp::Add,
                    OpCode::Sub => BinaryOp::Sub,
                    OpCode::Mul => BinaryOp::Mul,
                    _ => BinaryOp::Div,
                };
                Ok(Step::Binary(bop, lhs, rhs))
            },
        }
    }

    /// Runs `sequence` from its start on the current stack, doing the
    /// arithmetic with `arith`, until a `Return`, an error or the end of the
    /// code. Returns the value that `Return` popped, or `None` when the code
    /// ended without one.
    pub fn interpret<A: Arithmetic>(&mut self, sequence: &'vm Sequence, arith: &A) -> (r: Result<
        Option<Value>,
        InterpretError,
    >)
        requires
            sequence.loads_valid(),
        ensures
            final(self).sequence_view() == *sequence,
            ({
                let (outcome, depth) = run_shape(
                    sequence.code_view(),
                    0,
                    old(self).stack_view().len(),
                );
                &&& final(self).stack_view().len() == depth
                &&& exists|results: Seq<Value>|
                    run_spec(
                        sequence.code_view(),
                        sequence.constants_view(),
                        0,
                        old(self).stack_view(),
                        results,
                    ) == (r, final(self).stack_view())
                &&& outcome is Halted ==> r is Ok && r->Ok_0 is Some
                &&& outcome is Finished ==> r == Ok::<Option<Value>, InterpretError>(None)
                &&& outcome is Fault ==> r == Err::<Option<Value>, InterpretError>(
                    outcome->Fault_0,
                )
            }),
    {
        self.sequence = sequence;
        self.offset = 0;
        let ghost code = sequence.code_view();
        let ghost n = sequence.constants_view().len();
        let ghost outcome = run_shape(code, 0, self.stack@.len());
        let ghost stack0 = self.stack@;
        let ghost consts = sequence.constants_view();
        let ghost mut used: Seq<Value> = Seq::empty();
        proof {
            assert forall|rest: Seq<Value>|
                run_spec(code, consts, 0, stack0, used + rest) == run_spec(
                    code,
                    consts,
                    0,
                    stack0,
                    rest,
                ) by {
                assert(used + rest =~= rest);
            }
        }
        let len = sequence.code().len();
        while self.offset < len
            invariant
                self.sequence_view() == *sequence,
                code == sequence.code_view(),
                n == sequence.constants_view().len(),
                len == code.len(),
                self.offset <= len,
                loads_valid_from(code, n, self.offset as nat),
                run_shape(code, self.offset as nat, self.stack@.len()) == outcome,
                outcome == run_shape(code, 0, stack0.len()),
                stack0 == old(self).stack_view(),
                consts == sequence.constants_view(),
                forall|rest: Seq<Value>|
                    #[trigger] run_spec(code, consts, 0, stack0, used + rest) == run_spec(
                        code,
                        consts,
                        self.offset as nat,
                        self.stack@,
                        rest,
                    ),
            decreases len - self.offset,
        {
            let ghost offset0 = self.offset as nat;
            let ghost before = self.stack@;
            match self.step() {
                Ok(Step::Loaded) => {},
                Ok(Step::Negate(v)) => {
                    let result = arith.negate(v);
                    self.stack.push(result);
                    proof {
                        lemma_run_spec_answer(code, consts, offset0, before, used, result);
                        used = used.push(result);
                    }
                },
                Ok(Step::Binary(op, lhs, rhs)) => {
                    let result = arith.binary(op, lhs, rhs);
                    self.stack.push(result);
                    proof {
                        lemma_run_spec_answer(code, consts, offset0, before, used, result);
                        used = used.push(result);
                    }
                },
                Ok(Step::Halt(v)) => {
                    proof {
                        assert(run_spec(code, consts, 0, stack0, used + Seq::empty()) == run_spec(
                            code,
                            consts,
                            offset0,
                            before,
                            Seq::empty(),
                        ));
                    }
                    return Ok(Some(v));
                },
                Err(e) => {
                    proof {
                        assert(run_spec(code, consts, 0, stack0, used + Seq::empty()) == run_spec(
                            code,
                            consts,
                            offset0,
                            before,
                            Seq::empty(),
                        ));
                    }
                    return Err(e);
                },
            }
        }
        proof {
            assert(run_spec(code, consts, 0, stack0, used + Seq::empty()) == run_spec(
                code,
                consts,
                self.offset as nat,
                self.stack@,
                Seq::empty(),
            ));
        }
        Ok(None)
    }

    /// Offset of the next opcode to execute.
    pub fn offset(&self) -> (r: usize)
        ensures
            r == self.offset_view(),
    {
        self.offset
    }

    /// The operand stack, bottom first.
    pub fn stack(&self) -> (r: &[Value])
        ensures
            r@ == self.stack_view(),
    {
        self.stack.as_slice()
    }

    /// Pushes `value` on the operand stack.
    pub fn push_stack(&mut self, value: Value)
        ensures
            final(self).stack_view() == old(self).stack_view().push(value),
            final(self).offset_view() == old(self).offset_view(),
            final(self).sequence_view() == old(self).sequence_view(),
    {
        self.stack.push(value)
    }

    /// Pops the top of the operand stack; fails when it is empty.
    pub fn pop_stack(&mut self) -> (r: Result<Value, InterpretError>)
        ensures
            final(self).offset_view() == old(self).offset_view(),
            final(self).sequence_view() == old(self).sequence_view(),
            old(self).stack_view().len() == 0 ==> r == Err::<Value, InterpretError>(
                InterpretError::StackEmpty,
            ) && final(self).stack_view() == old(self).stack_view(),
            old(self).stack_view().len() > 0 ==> r == Ok::<Value, InterpretError>(
                old(self).stack_view().last(),
            ) && final(self).stack_view() == old(self).stack_view().drop_last(),
    {
        match self.stack.pop() {
            Some(v) => Ok(v),
            None => Err(InterpretError::StackEmpty),
        }
    }

    /// Empties the operand stack.
    pub fn reset_stack(&mut self)
        ensures
            final(self).stack_view() == Seq::<Value>::empty(),
            final(self).offset_view() == old(self).offset_view(),
            final(self).sequence_view() == old(self).sequence_view(),
    {
        self.stack.clear();
    }
}

/// Errors that stop a run.
#[derive(Debug, Clone, Copy, PartialEq, Eq, Structural)]
pub enum InterpretError {
    /// A static error in the source code.
    CompileError,
    /// A dynamic error while running the bytecode.
    RuntimeError,
    /// An instruction needed more values than the stack held.
    StackEmpty,
    /// An opcode byte outside the defined set.
    UnknownOpCode(u8),
}

} // verus!
