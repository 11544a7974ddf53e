//! The front end: scans source bytes into the tokens a listing shows.
use vstd::prelude::*;
use crate::scan::{ScanError, Scanner, scan_from};
use crate::token::Token;

verus! {

#[verifier::external_type_specification]
#[verifier::external_body]
pub struct ExUtf8Error(core::str::Utf8Error);

/// Whether `bytes` is well-formed UTF-8.
pub uninterp spec fn utf8_valid(bytes: Seq<u8>) -> bool;

/// Relies on `std::str::from_utf8`: it fails exactly when the bytes are not
/// UTF-8, and its error says where.
#[verifier::external_body]
fn check_utf8(bytes: &[u8]) -> (r: Result<(), core::str::Utf8Error>)
    ensures
        r is Ok <==> utf8_valid(bytes@),
{
    match std::str::from_utf8(bytes) {
        Ok(_) => Ok(()),
        Err(e) => Err(e),
    }
}

/// The source text of token `t`.
pub open spec fn token_text(data: Seq<u8>, t: Token) -> Seq<u8> {
    data.subrange(t.start as int, t.start + t.len)
}

/// Every token of `ts` has UTF-8 text.
pub open spec fn texts_valid(data: Seq<u8>, ts: Seq<Token>) -> bool {
    forall|i: int| 0 <= i < ts.len() ==> utf8_valid(#[trigger] token_text(data, ts[i]))
}

/// Turns source bytes into tokens.
#[derive(Debug, Default)]
pub struct Compiler;

impl Compiler {
    /// Scans `bytes` to the end and returns its tokens, in order. Fails on
    /// the first token that does not scan or whose text is not UTF-8.
    pub fn compile(&self, bytes: &[u8]) -> (r: Result<Vec<Token>, CompileError>)
        ensures
            ({
                let (ts, err) = scan_from(bytes@, 0, 0, 1);
                &&& texts_valid(bytes@, ts) && err is None ==> r is Ok && r->Ok_0@ == ts
                &&& texts_valid(bytes@, ts) && err is Some ==> r == Err::<Vec<Token>, CompileError>(
                    CompileError::ScanError(err->Some_0),
                )
                &&& !texts_valid(bytes@, ts) ==> r matches Err(CompileError::Utf8Error(_))
            }),
    {
        let mut scanner = Scanner::new(bytes);
        let mut tokens: Vec<Token> = Vec::new();
        let ghost all = scan_from(bytes@, 0, 0, 1);
        let n = bytes.len();
        loop
            invariant
                scanner.wf(),
                scanner.data_view() == bytes@,
                n == bytes@.len(),
                scanner.offset_view() <= n,
                all == scan_from(bytes@, 0, 0, 1),
                all.0 == tokens@ + scanner.remaining().0,
                all.1 == scanner.remaining().1,
                texts_valid(bytes@, tokens@),
            decreases n - scanner.offset_view(),
        {
            let ghost before = scanner;
            proof {
                crate::scan::lemma_next_progress(
                    bytes@,
                    scanner.start_view(),
                    scanner.offset_view(),
                    scanner.line_view(),
                );
            }
            match scanner.next_token() {
                None => {
                    proof {
                        assert(tokens@ + Seq::<Token>::empty() =~= tokens@);
                    }
                    return Ok(tokens);
                },
                Some(Err(e)) => {
                    proof {
                        assert(tokens@ + Seq::<Token>::empty() =~= tokens@);
                    }
                    return Err(CompileError::ScanError(e));
                },
                Some(Ok(t)) => {
                    let end = t.end();
                    if t.start > end || end > n {
                        return Err(CompileError::ScanOutOfBounds(t.start, end));
                    }
                    match check_utf8(&bytes[t.start..end]) {
                        Ok(()) => {},
                        Err(e) => {
                            proof {
                                assert(all.0[tokens@.len() as int] == t);
                                assert(!utf8_valid(token_text(bytes@, all.0[tokens@.len() as int])));
                            }
                            return Err(CompileError::Utf8Error(e));
                        },
                    }
                    proof {
                        assert(scanner.remaining().0 == before.remaining().0.drop_first());
                        assert(tokens@.push(t) + scanner.remaining().0 =~= tokens@ + before.remaining().0);
                    }
                    tokens.push(t);
                },
            }
        }
    }
}

/// Errors raised while compiling.
#[derive(Debug, Clone, Copy, PartialEq, Eq)]
pub enum CompileError {
    ScanError(ScanError),
    /// A token's text is not UTF-8.
    Utf8Error(core::str::Utf8Error),
    /// A token's span, start and end, falls outside the source.
    ScanOutOfBounds(usize, usize),
}

} // verus!
