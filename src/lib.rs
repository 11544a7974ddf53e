//! Execution core of a small scripting language: bytecode sequences, a
//! disassembler, a stack-based virtual machine, a bump allocator, and the
//! scanner that feeds the front end.
pub mod arena;
pub mod bytecode;
pub mod compiler;
pub mod dis;
pub mod interpret;
pub mod scan;
pub mod token;
pub mod value;
pub mod vm;

pub use arena::{MmAllocator, MEM_POOL_SIZE};
pub use bytecode::{OpCode, OpCodeError, Sequence, SequenceError, ToByte};
pub use compiler::{CompileError, Compiler};
pub use dis::{Disassembler, Instruction, Operand};
pub use interpret::{InterpretError, Interpreter};
pub use scan::{ScanError, Scanner};
pub use token::{Comparison, Keyword, Literal, SingleChar, Token, TokenType};
pub use value::{Value, ValueVec};
pub use vm::{Arithmetic, BinaryOp, Outcome, Step, VM};

use vstd::prelude::*;

verus! {

#[verifier::external_type_specification]
#[verifier::external_body]
pub struct ExIoError(std::io::Error);

/// Entry point that runs source text.
#[derive(Debug, Default)]
pub struct MMalis;

impl MMalis {
    /// Runs `bytes` and returns the tokens of its listing. `_is_repl` tells
    /// whether the bytes come from the interactive prompt.
    pub fn run(&mut self, bytes: &[u8], _is_repl: bool) -> (r: Result<Vec<Token>, MMalisError>)
        ensures
            ({
                let (ts, err) = scan::scan_from(bytes@, 0, 0, 1);
                &&& compiler::texts_valid(bytes@, ts) && err is None ==> r is Ok && r->Ok_0@
                    == ts
                &&& compiler::texts_valid(bytes@, ts) && err is Some ==> r
                    == Err::<Vec<Token>, MMalisError>(
                    MMalisError::InterpretError(
                        InterpretError::CompileError(CompileError::ScanError(err->Some_0)),
                    ),
                )
                &&& !compiler::texts_valid(bytes@, ts) ==> r matches Err(
                    MMalisError::InterpretError(
                        InterpretError::CompileError(CompileError::Utf8Error(_)),
                    ),
                )
            }),
    {
        let interpreter = Interpreter;
        match interpreter.interpret(bytes) {
            Ok(tokens) => Ok(tokens),
            Err(e) => Err(MMalisError::from(e)),
        }
    }
}

/// Errors raised by the entry points.
#[derive(Debug)]
pub enum MMalisError {
    StdIO(std::io::Error),
    InterpretError(InterpretError),
}

impl From<std::io::Error> for MMalisError {
    fn from(value: std::io::Error) -> (r: MMalisError)
        ensures
            r == MMalisError::StdIO(value),
    {
        MMalisError::StdIO(value)
    }
}

impl vstd::std_specs::convert::FromSpecImpl<std::io::Error> for MMalisError {
    open spec fn obeys_from_spec() -> bool {
        true
    }

    open spec fn from_spec(v: std::io::Error) -> MMalisError {
        MMalisError::StdIO(v)
    }
}

impl From<InterpretError> for MMalisError {
    fn from(value: InterpretError) -> (r: MMalisError)
        ensures
            r == MMalisError::InterpretError(value),
    {
        MMalisError::InterpretError(value)
    }
}

impl vstd::std_specs::convert::FromSpecImpl<InterpretError> for MMalisError {
    open spec fn obeys_from_spec() -> bool {
        true
    }

    open spec fn from_spec(v: InterpretError) -> MMalisError {
        MMalisError::InterpretError(v)
    }
}

} // verus!
