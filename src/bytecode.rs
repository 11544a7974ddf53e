//! The bytecode format: opcodes, and sequences of encoded instructions with
//! their constant pool and source-line table.
use vstd::prelude::*;
use crate::value::{Value, ValueVec};

verus! {

/// Largest constant index that a `ConstantLong` operand can carry.
pub const MAX_LONG_INDEX: usize = 0xff_ffff;

/// An instruction tag, decoded from a single byte.
#[derive(Debug, Clone, Copy, PartialEq, Eq, Structural)]
pub enum OpCode {
    /// Return from the current function, yielding the top of the stack.
    Return,
    /// Load the constant whose index is the following byte.
    Constant,
    /// Load the constant whose index is the following three bytes, little endian.
    ConstantLong,
    /// Negate the top of the stack.
    Negate,
    /// Add the two values on top of the stack.
    Add,
    /// Subtract the top of the stack from the value below it.
    Sub,
    /// Multiply the two values on top of the stack.
    Mul,
    /// Divide the value below the top of the stack by the top.
    Div,
    /// A byte outside the defined set, kept for debugging.
    Unknown(u8),
}

/// The opcode that `b` decodes to.
pub open spec fn opcode_of(b: u8) -> OpCode {
    if b == 0 {
        OpCode::Return
    } else if b == 1 {
        OpCode::Constant
    } else if b == 2 {
        OpCode::ConstantLong
    } else if b == 3 {
        OpCode::Negate
    } else if b == 4 {
        OpCode::Add
    } else if b == 5 {
        OpCode::Sub
    } else if b == 6 {
        OpCode::Mul
    } else if b == 7 {
        OpCode::Div
    } else {
        OpCode::Unknown(b)
    }
}

/// The byte that encodes `op`; an unknown opcode encodes as the byte it holds.
pub open spec fn byte_of(op: OpCode) -> u8 {
    match op {
        OpCode::Return => 0,
        OpCode::Constant => 1,
        OpCode::ConstantLong => 2,
        OpCode::Negate => 3,
        OpCode::Add => 4,
        OpCode::Sub => 5,
        OpCode::Mul => 6,
        OpCode::Div => 7,
        OpCode::Unknown(b) => b,
    }
}

/// Decoding then encoding a byte gives the byte back.
pub proof fn lemma_byte_round_trip(b: u8)
    ensures
        byte_of(opcode_of(b)) == b,
{
}

/// Encoding then decoding a defined opcode gives the opcode back.
pub proof fn lemma_opcode_round_trip(op: OpCode)
    requires
        !(op is Unknown),
    ensures
        opcode_of(byte_of(op)) == op,
{
}

impl From<u8> for OpCode {
    fn from(value: u8) -> (r: OpCode)
        ensures
            r == opcode_of(value),
    {
        match value {
            0 => OpCode::Return,
            1 => OpCode::Constant,
            2 => OpCode::ConstantLong,
            3 => OpCode::Negate,
            4 => OpCode::Add,
            5 => OpCode::Sub,
            6 => OpCode::Mul,
            7 => OpCode::Div,
            _ => OpCode::Unknown(value),
        }
    }
}

impl vstd::std_specs::convert::FromSpecImpl<u8> for OpCode {
    open spec fn obeys_from_spec() -> bool {
        true
    }

    open spec fn from_spec(v: u8) -> OpCode {
        opcode_of(v)
    }
}

/// Values that may be appended to a sequence as one byte.
pub trait ToByte: Sized {
    /// The byte that encodes `self`, if there is one.
    spec fn spec_byte(&self) -> Option<u8>;

    fn to_byte(self) -> (r: Result<u8, OpCodeError>)
        ensures
            r is Ok <==> self.spec_byte() is Some,
            r is Ok ==> r->Ok_0 == self.spec_byte()->Some_0,
    ;
}

impl ToByte for u8 {
    open spec fn spec_byte(&self) -> Option<u8> {
        Some(*self)
    }

    fn to_byte(self) -> (r: Result<u8, OpCodeError>) {
        Ok(self)
    }
}

impl ToByte for usize {
    open spec fn spec_byte(&self) -> Option<u8> {
        if *self <= 0xff {
            Some(*self as u8)
        } else {
            None
        }
    }

    fn to_byte(self) -> (r: Result<u8, OpCodeError>) {
        if self <= 0xff {
            Ok(self as u8)
        } else {
            Err(OpCodeError::OutOfRange)
        }
    }
}

impl ToByte for OpCode {
    open spec fn spec_byte(&self) -> Option<u8> {
        Some(byte_of(*self))
    }

    fn to_byte(self) -> (r: Result<u8, OpCodeError>) {
        let b: u8 = match self {
            OpCode::Return => 0,
            OpCode::Constant => 1,
            OpCode::ConstantLong => 2,
            OpCode::Negate => 3,
            OpCode::Add => 4,
            OpCode::Sub => 5,
            OpCode::Mul => 6,
            OpCode::Div => 7,
            OpCode::Unknown(value) => value,
        };
        Ok(b)
    }
}

/// The line of every code byte, expanded from run-length pairs of
/// (line, number of bytes).
pub open spec fn expand(runs: Seq<(u32, usize)>) -> Seq<u32>
    decreases runs.len(),
{
    if runs.len() == 0 {
        Seq::empty()
    } else {
        expand(runs.drop_last()) + Seq::new(runs.last().1 as nat, |_i: int| runs.last().0)
    }
}

/// Expanding one more run appends that run's bytes.
proof fn lemma_expand_take_next(runs: Seq<(u32, usize)>, i: int)
    requires
        0 <= i < runs.len(),
    ensures
        expand(runs.take(i + 1)) == expand(runs.take(i)) + Seq::new(
            runs[i].1 as nat,
            |_j: int| runs[i].0,
        ),
{
    assert(runs.take(i + 1).drop_last() =~= runs.take(i));
    assert(runs.take(i + 1).last() == runs[i]);
}

/// The last run's bytes are part of the expansion.
proof fn lemma_expand_last(runs: Seq<(u32, usize)>)
    requires
        runs.len() > 0,
    ensures
        runs.last().1 <= expand(runs).len(),
{
}

/// The expansion of the first `i` runs is a prefix of the whole expansion.
proof fn lemma_expand_prefix(runs: Seq<(u32, usize)>, i: int)
    requires
        0 <= i <= runs.len(),
    ensures
        expand(runs.take(i)).len() <= expand(runs).len(),
        forall|j: int|
            0 <= j < expand(runs.take(i)).len() ==> #[trigger] expand(runs.take(i))[j]
                == expand(runs)[j],
    decreases runs.len() - i,
{
    if i < runs.len() {
        lemma_expand_prefix(runs, i + 1);
        lemma_expand_take_next(runs, i);
        let a = expand(runs.take(i));
        let b = expand(runs.take(i + 1));
        assert forall|j: int| 0 <= j < a.len() implies #[trigger] a[j] == expand(runs)[j] by {
            assert(b[j] == a[j]);
        }
    } else {
        assert(runs.take(i) =~= runs);
    }
}

/// The little-endian index carried by the three operand bytes of a
/// `ConstantLong` instruction.
pub open spec fn long_index(b0: u8, b1: u8, b2: u8) -> nat {
    b0 as nat + 256 * (b1 as nat) + 65536 * (b2 as nat)
}

/// The instruction that loads the constant at `idx`: the short form while the
/// index fits in one byte, the long form otherwise.
pub open spec fn load_instruction(idx: nat) -> Seq<u8> {
    if idx <= 0xff {
        seq![1u8, idx as u8]
    } else {
        seq![2u8, (idx % 256) as u8, ((idx / 256) % 256) as u8, (idx / 65536) as u8]
    }
}

/// Number of bytes taken by an instruction with opcode `op`, operands included.
pub open spec fn width(op: OpCode) -> nat {
    match op {
        OpCode::Constant => 2,
        OpCode::ConstantLong => 4,
        _ => 1,
    }
}

/// The constant index carried by the load instruction at `offset`.
pub open spec fn operand_index(code: Seq<u8>, offset: int) -> nat {
    match opcode_of(code[offset]) {
        OpCode::Constant => code[offset + 1] as nat,
        OpCode::ConstantLong => long_index(code[offset + 1], code[offset + 2], code[offset + 3]),
        _ => 0,
    }
}

/// The instruction at `offset` lies within the code and, if it is a load,
/// indexes one of the `n_consts` constants.
pub open spec fn load_ok(code: Seq<u8>, n_consts: nat, offset: int) -> bool {
    &&& 0 <= offset
    &&& offset + width(opcode_of(code[offset])) <= code.len()
    &&& (opcode_of(code[offset]) is Constant || opcode_of(code[offset]) is ConstantLong)
        ==> operand_index(code, offset) < n_consts
}

/// Every instruction met when decoding from `offset` to the end is
/// `load_ok`.
pub open spec fn loads_valid_from(code: Seq<u8>, n_consts: nat, offset: nat) -> bool
    decreases code.len() - offset,
{
    if offset >= code.len() {
        true
    } else {
        load_ok(code, n_consts, offset as int) && loads_valid_from(
            code,
            n_consts,
            offset + width(opcode_of(code[offset as int])),
        )
    }
}

/// A constant index that fits in one byte is loaded with the short form;
/// any larger one with the long form.
pub proof fn lemma_load_form(idx: nat)
    requires
        idx <= MAX_LONG_INDEX,
    ensures
        idx <= 0xff ==> load_instruction(idx)[0] == byte_of(OpCode::Constant)
            && load_instruction(idx).len() == 2,
        idx > 0xff ==> load_instruction(idx)[0] == byte_of(OpCode::ConstantLong)
            && load_instruction(idx).len() == 4,
{
}

/// A series of bytecode instructions, with the constants they load and the
/// source line of each byte.
#[derive(Default)]
pub struct Sequence {
    code: Vec<u8>,
    /// Run-length encoded lines: (line, number of successive bytes on it).
    lines: Vec<(u32, usize)>,
    constants: ValueVec,
}

impl Sequence {
    /// The encoded bytes.
    pub closed spec fn code_view(&self) -> Seq<u8> {
        self.code@
    }

    /// The source line of each encoded byte.
    pub closed spec fn line_view(&self) -> Seq<u32> {
        expand(self.lines@)
    }

    /// The constant pool.
    pub closed spec fn constants_view(&self) -> Seq<Value> {
        self.constants@
    }

    /// The line table holds one line per code byte.
    pub closed spec fn wf(&self) -> bool {
        expand(self.lines@).len() == self.code@.len()
    }

    /// The line of the byte at `offset`, or 0 past the end.
    pub open spec fn line_at(&self, offset: int) -> u32 {
        if 0 <= offset < self.code_view().len() {
            self.line_view()[offset]
        } else {
            0
        }
    }

    /// Every load instruction, decoding from the start, indexes the pool.
    pub open spec fn loads_valid(&self) -> bool {
        loads_valid_from(self.code_view(), self.constants_view().len(), 0)
    }

    /// A well-formed sequence has one line per code byte.
    pub proof fn lemma_lines_cover_code(&self)
        requires
            self.wf(),
        ensures
            self.line_view().len() == self.code_view().len(),
    {
    }

    /// Lines are kept as appended: when `after` was obtained from `before` by
    /// appending bytes on `lines` (with `push` and `write_constant`), `line`
    /// returns, at the offset of each appended byte, the line it was appended
    /// with, and at every earlier offset what it returned before.
    pub proof fn lemma_appended_lines(before: Sequence, after: Sequence, lines: Seq<u32>)
        requires
            before.wf(),
            after.wf(),
            after.line_view() == before.line_view() + lines,
        ensures
            forall|i: int|
                0 <= i < lines.len() ==> after.line_at(before.code_view().len() + i) == lines[i],
            forall|i: int|
                0 <= i < before.code_view().len() ==> after.line_at(i) == before.line_at(i),
    {
    }

    pub fn new() -> (r: Sequence)
        ensures
            r.wf(),
            r.code_view() == Seq::<u8>::empty(),
            r.line_view() == Seq::<u32>::empty(),
            r.constants_view() == Seq::<Value>::empty(),
    {
        Sequence { code: Vec::new(), lines: Vec::new(), constants: ValueVec(Vec::new()) }
    }

    /// Appends one encoded byte, emitted from source line `line`.
    ///
    /// Fails, leaving the sequence unchanged, when `byte` has no one-byte
    /// encoding.
    pub fn push<T: ToByte>(&mut self, byte: T, line: u32) -> (r: Result<(), SequenceError>)
        requires
            old(self).wf(),
        ensures
            final(self).wf(),
            final(self).constants_view() == old(self).constants_view(),
            r is Ok <==> byte.spec_byte() is Some,
            r is Ok ==> final(self).code_view() == old(self).code_view().push(
                byte.spec_byte()->Some_0,
            ) && final(self).line_view() == old(self).line_view().push(line),
            r is Err ==> final(self).code_view() == old(self).code_view()
                && final(self).line_view() == old(self).line_view(),
    {
        let b = match byte.to_byte() {
            Ok(b) => b,
            Err(_e) => return Err(SequenceError::PushByte),
        };
        self.code.push(b);
        let _len = self.code.len();
        let n = self.lines.len();
        if n > 0 && self.lines[n - 1].0 == line {
            let count = self.lines[n - 1].1;
            proof {
                lemma_expand_last(self.lines@);
                assert(self.lines@.drop_last() + seq![self.lines@.last()] =~= self.lines@);
            }
            self.lines.set(n - 1, (line, count + 1));
            proof {
                let runs = self.lines@;
                assert(runs.drop_last() =~= old(self).lines@.drop_last());
                assert(expand(runs) =~= expand(old(self).lines@).push(line));
            }
        } else {
            self.lines.push((line, 1));
            proof {
                let runs = self.lines@;
                assert(runs.drop_last() =~= old(self).lines@);
                assert(expand(runs) =~= expand(old(self).lines@).push(line));
            }
        }
        Ok(())
    }

    /// The encoded bytes.
    pub fn code(&self) -> (r: &[u8])
        ensures
            r@ == self.code_view(),
    {
        self.code.as_slice()
    }

    /// The source line of the byte at `idx`, or 0 when `idx` is past the end.
    pub fn line(&self, idx: usize) -> (r: u32)
        requires
            self.wf(),
        ensures
            r == self.line_at(idx as int),
    {
        let code_len = self.code.len();
        let mut total: usize = 0;
        let mut i: usize = 0;
        while i < self.lines.len()
            invariant
                self.wf(),
                code_len == self.code@.len(),
                0 <= i <= self.lines@.len(),
                total == expand(self.lines@.take(i as int)).len(),
                total <= idx,
            decreases self.lines@.len() - i,
        {
            proof {
                lemma_expand_prefix(self.lines@, i + 1);
                lemma_expand_take_next(self.lines@, i as int);
            }
            let (line, count) = self.lines[i];
            total = total + count;
            if idx < total {
                proof {
                    let pre = expand(self.lines@.take(i + 1));
                    assert(pre[idx as int] == line);
                }
                return line;
            }
            i = i + 1;
        }
        proof {
            assert(self.lines@.take(i as int) =~= self.lines@);
        }
        0
    }

    /// The constant pool.
    pub fn constants(&self) -> (r: &[Value])
        ensures
            r@ == self.constants_view(),
    {
        self.constants.values()
    }

    /// Whether the instruction at `offset` lies within the code and, if it
    /// is a load, indexes the pool.
    pub fn instruction_ok(&self, offset: usize) -> (r: bool)
        requires
            offset < self.code_view().len(),
        ensures
            r == load_ok(self.code_view(), self.constants_view().len(), offset as int),
    {
        let code = self.code.as_slice();
        let n = code.len();
        let pool = self.constants.0.len();
        match OpCode::from(code[offset]) {
            OpCode::Constant => offset < n - 1 && (code[offset + 1] as usize) < pool,
            OpCode::ConstantLong => n >= 4 && offset < n - 3 && (code[offset + 1] as usize) + 256 * (
            code[offset + 2] as usize) + 65536 * (code[offset + 3] as usize) < pool,
            _ => true,
        }
    }

    /// Whether every load instruction, decoding from the start, indexes the
    /// pool: what running or listing the sequence requires.
    pub fn loads_in_range(&self) -> (r: bool)
        ensures
            r == self.loads_valid(),
    {
        let n = self.code.len();
        let mut offset: usize = 0;
        while offset < n
            invariant
                n == self.code_view().len(),
                offset <= n,
                self.loads_valid() == loads_valid_from(
                    self.code_view(),
                    self.constants_view().len(),
                    offset as nat,
                ),
            decreases n - offset,
        {
            if !self.instruction_ok(offset) {
                return false;
            }
            let w: usize = match OpCode::from(self.code[offset]) {
                OpCode::Constant => 2,
                OpCode::ConstantLong => 4,
                _ => 1,
            };
            offset = offset + w;
        }
        true
    }

    /// The constant at `idx` in the pool.
    pub fn constant(&self, idx: usize) -> (r: &Value)
        requires
            idx < self.constants_view().len(),
        ensures
            *r == self.constants_view()[idx as int],
    {
        &self.constants.values()[idx]
    }

    /// The constant whose index is the byte at `offset`.
    pub fn read_constant(&self, offset: usize) -> (r: &Value)
        requires
            offset < self.code_view().len(),
            (self.code_view()[offset as int] as int) < self.constants_view().len(),
        ensures
            *r == self.constants_view()[self.code_view()[offset as int] as int],
    {
        let idx = self.code()[offset];
        self.constant(idx as usize)
    }

    /// Appends `value` to the constant pool and returns its index.
    pub fn add_constant(&mut self, value: Value) -> (r: usize)
        requires
            old(self).wf(),
        ensures
            final(self).wf(),
            final(self).code_view() == old(self).code_view(),
            final(self).line_view() == old(self).line_view(),
            final(self).constants_view() == old(self).constants_view().push(value),
            r == old(self).constants_view().len(),
    {
        self.constants.push(value);
        self.constants.0.len() - 1
    }

    /// Adds `value` to the constant pool and appends the instruction that
    /// loads it, every byte of it on `line`.
    ///
    /// Fails, leaving the sequence unchanged, when the pool already holds as
    /// many constants as a load instruction can address.
    pub fn write_constant(&mut self, value: Value, line: u32) -> (r: Result<(), SequenceError>)
        requires
            old(self).wf(),
        ensures
            final(self).wf(),
            r is Ok <==> old(self).constants_view().len() <= MAX_LONG_INDEX,
            r is Ok ==> {
                let idx = old(self).constants_view().len();
                let ins = load_instruction(idx);
                &&& final(self).constants_view() == old(self).constants_view().push(value)
                &&& final(self).code_view() == old(self).code_view() + ins
                &&& final(self).line_view() == old(self).line_view() + Seq::new(
                    ins.len(),
                    |_i: int| line,
                )
            },
            r is Err ==> final(self).constants_view() == old(self).constants_view()
                && final(self).code_view() == old(self).code_view()
                && final(self).line_view() == old(self).line_view(),
    {
        if self.constants.0.len() > MAX_LONG_INDEX {
            return Err(SequenceError::PushByte);
        }
        let idx = self.add_constant(value);
        let ghost code0 = self.code_view();
        let ghost lines0 = self.line_view();
        if idx > 0xff {
            let b0 = (idx % 256) as u8;
            let b1 = ((idx / 256) % 256) as u8;
            let b2 = (idx / 65536) as u8;
            let _ = self.push(OpCode::ConstantLong, line);
            let _ = self.push(b0, line);
            let _ = self.push(b1, line);
            let _ = self.push(b2, line);
            proof {
                let ins = load_instruction(idx as nat);
                assert(ins =~= seq![2u8, b0, b1, b2]);
                assert(self.code_view() =~= code0 + ins);
                assert(self.line_view() =~= lines0 + Seq::new(ins.len(), |_i: int| line));
            }
        } else {
            let _ = self.push(OpCode::Constant, line);
            let _ = self.push(idx, line);
            proof {
                let ins = load_instruction(idx as nat);
                assert(ins =~= seq![1u8, idx as u8]);
                assert(self.code_view() =~= code0 + ins);
                assert(self.line_view() =~= lines0 + Seq::new(ins.len(), |_i: int| line));
            }
        }
        Ok(())
    }

    /// A sequence holding `value` as its code, with no constants, every byte on
    /// line 0.
    pub fn from_slice(value: &[u8]) -> (r: Sequence)
        ensures
            r.wf(),
            r.code_view() == value@,
            r.line_view() == Seq::new(value@.len(), |_i: int| 0u32),
            r.constants_view() == Seq::<Value>::empty(),
    {
        let mut code: Vec<u8> = Vec::new();
        let mut i: usize = 0;
        while i < value.len()
            invariant
                0 <= i <= value@.len(),
                code@ == value@.take(i as int),
            decreases value@.len() - i,
        {
            code.push(value[i]);
            i = i + 1;
            proof {
                assert(code@ =~= value@.take(i as int));
            }
        }
        proof {
            assert(value@.take(i as int) =~= value@);
        }
        let mut lines: Vec<(u32, usize)> = Vec::new();
        lines.push((0u32, code.len()));
        proof {
            assert(lines@.drop_last() =~= Seq::<(u32, usize)>::empty());
            assert(expand(Seq::<(u32, usize)>::empty()) =~= Seq::<u32>::empty());
            assert(lines@.last() == (0u32, value@.len() as usize));
            assert(expand(lines@) =~= Seq::new(value@.len(), |_i: int| 0u32));
        }
        Sequence { code, lines, constants: ValueVec(Vec::new()) }
    }
}

/// Errors raised while building a sequence.
#[derive(Debug, Clone, Copy, PartialEq, Eq, Structural)]
pub enum SequenceError {
    /// A value has no encoding in the space the format gives it.
    PushByte,
}

/// Errors raised while encoding a value as one byte.
#[derive(Debug, Clone, Copy, PartialEq, Eq, Structural)]
pub enum OpCodeError {
    /// The value is larger than a byte.
    OutOfRange,
}

} // verus!
