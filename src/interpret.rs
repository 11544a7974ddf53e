//! Runs source text through the front end.
use vstd::prelude::*;
use crate::compiler::{CompileError, Compiler, texts_valid};
use crate::scan::scan_from;
use crate::token::Token;

verus! {

/// Runs source text.
#[derive(Debug, Default)]
pub struct Interpreter;

impl Interpreter {
    /// Compiles `bytes`, returning the tokens of its listing.
    pub fn interpret(&self, bytes: &[u8]) -> (r: Result<Vec<Token>, InterpretError>)
        ensures
            ({
                let (ts, err) = scan_from(bytes@, 0, 0, 1);
                &&& texts_valid(bytes@, ts) && err is None ==> r is Ok && r->Ok_0@ == ts
                &&& texts_valid(bytes@, ts) && err is Some ==> r
                    == Err::<Vec<Token>, InterpretError>(
                    InterpretError::CompileError(CompileError::ScanError(err->Some_0)),
                )
                &&& !texts_valid(bytes@, ts) ==> r matches Err(
                    InterpretError::CompileError(CompileError::Utf8Error(_)),
                )
            }),
    {
        let compiler = Compiler;
        match compiler.compile(bytes) {
            Ok(tokens) => Ok(tokens),
            Err(e) => Err(InterpretError::from(e)),
        }
    }
}

/// Errors raised while running source text.
#[derive(Debug, Clone, Copy, PartialEq, Eq)]
pub enum InterpretError {
    /// A static error in the source code.
    CompileError(CompileError),
    /// A dynamic error while running the bytecode.
    RuntimeError,
    /// An instruction needed more values than the stack held.
    StackEmpty,
}

impl From<CompileError> for InterpretError {
    fn from(value: CompileError) -> (r: InterpretError)
        ensures
            r == InterpretError::CompileError(value),
    {
        InterpretError::CompileError(value)
    }
}

impl vstd::std_specs::convert::FromSpecImpl<CompileError> for InterpretError {
    open spec fn obeys_from_spec() -> bool {
        true
    }

    open spec fn from_spec(v: CompileError) -> InterpretError {
        InterpretError::CompileError(v)
    }
}

} // verus!
