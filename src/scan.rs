//! The scanner: turns source bytes into tokens, one at a time.
use vstd::prelude::*;
use crate::token::{Comparison, Literal, SingleChar, Token, TokenType};

verus! {

/// The next line number, saturating at the largest one.
pub open spec fn next_line(line: nat) -> nat {
    if line < usize::MAX {
        line + 1
    } else {
        line
    }
}

/// A `//` comment starts at `o`.
pub open spec fn comment_at(data: Seq<u8>, o: nat) -> bool {
    o + 1 < data.len() && data[o as int] == 47 && data[o + 1 as int] == 47
}

/// Skipping blanks, newlines and comments from `o` on line `line`: whether a
/// token byte was found, the offset reached and the line there.
pub open spec fn skip_spec(data: Seq<u8>, o: nat, line: nat) -> (bool, nat, nat)
    decreases data.len() - o, 0int,
{
    if o >= data.len() {
        (false, o, line)
    } else {
        let b = data[o as int];
        if b == 32 || b == 13 || b == 9 {
            skip_spec(data, o + 1, line)
        } else if b == 10 {
            skip_spec(data, o + 1, next_line(line))
        } else if comment_at(data, o) {
            skip_comment_spec(data, o + 2, line)
        } else {
            (true, o, line)
        }
    }
}

/// As `skip_spec`, from inside a comment: the comment runs up to the next
/// newline, which is not part of it.
pub open spec fn skip_comment_spec(data: Seq<u8>, o: nat, line: nat) -> (bool, nat, nat)
    decreases data.len() - o, 1int,
{
    if o >= data.len() {
        (false, o, line)
    } else if data[o as int] == 10 {
        skip_spec(data, o, line)
    } else {
        skip_comment_spec(data, o + 1, line)
    }
}

/// When skipping finds a token byte, it lies within the data.
proof fn lemma_skip_found(data: Seq<u8>, o: nat, line: nat, in_comment: bool)
    ensures
        !in_comment && skip_spec(data, o, line).0 ==> o <= skip_spec(data, o, line).1
            < data.len(),
        in_comment && skip_comment_spec(data, o, line).0 ==> o <= skip_comment_spec(
            data,
            o,
            line,
        ).1 < data.len(),
        !in_comment && o <= data.len() ==> skip_spec(data, o, line).1 <= data.len(),
        in_comment && o <= data.len() ==> skip_comment_spec(data, o, line).1 <= data.len(),
    decreases data.len() - o, if in_comment {
        1int
    } else {
        0int
    },
{
    if o < data.len() {
        if in_comment {
            if data[o as int] == 10 {
                lemma_skip_found(data, o, line, false);
            } else {
                lemma_skip_found(data, o + 1, line, true);
            }
        } else {
            let b = data[o as int];
            if b == 32 || b == 13 || b == 9 {
                lemma_skip_found(data, o + 1, line, false);
            } else if b == 10 {
                lemma_skip_found(data, o + 1, next_line(line), false);
            } else if comment_at(data, o) {
                lemma_skip_found(data, o + 2, line, true);
            }
        }
    }
}

/// Scanning the body of a string from `o` on line `line`: whether the
/// closing quote was found, the offset reached (past the quote) and the line
/// there.
pub open spec fn string_spec(data: Seq<u8>, o: nat, line: nat) -> (bool, nat, nat)
    decreases data.len() - o,
{
    if o >= data.len() {
        (false, o, line)
    } else if data[o as int] == 34 {
        (true, o + 1, line)
    } else if data[o as int] == 10 {
        string_spec(data, o + 1, next_line(line))
    } else {
        string_spec(data, o + 1, line)
    }
}

/// The token kind of a byte that stands for itself.
pub open spec fn single_char(b: u8) -> Option<SingleChar> {
    if b == 40 {
        Some(SingleChar::LeftParen)
    } else if b == 41 {
        Some(SingleChar::RightParen)
    } else if b == 123 {
        Some(SingleChar::LeftBrace)
    } else if b == 125 {
        Some(SingleChar::RightBrace)
    } else if b == 44 {
        Some(SingleChar::Comma)
    } else if b == 46 {
        Some(SingleChar::Dot)
    } else if b == 45 {
        Some(SingleChar::Minus)
    } else if b == 43 {
        Some(SingleChar::Plus)
    } else if b == 59 {
        Some(SingleChar::SemiColon)
    } else if b == 58 {
        Some(SingleChar::Colon)
    } else if b == 47 {
        Some(SingleChar::Slash)
    } else if b == 42 {
        Some(SingleChar::Star)
    } else if b == 63 {
        Some(SingleChar::Question)
    } else {
        None
    }
}

/// For `!`, `=`, `<` and `>`: the kind alone, and the kind when followed by
/// `=`.
pub open spec fn pair_char(b: u8) -> Option<(TokenType, TokenType)> {
    if b == 33 {
        Some((TokenType::SingleChar(SingleChar::Bang), TokenType::Comparison(Comparison::BangEqual)))
    } else if b == 61 {
        Some(
            (TokenType::SingleChar(SingleChar::Equal), TokenType::Comparison(Comparison::EqualEqual)),
        )
    } else if b == 60 {
        Some((TokenType::Comparison(Comparison::Less), TokenType::Comparison(Comparison::LessEqual)))
    } else if b == 62 {
        Some(
            (
                TokenType::Comparison(Comparison::Greater),
                TokenType::Comparison(Comparison::GreaterEqual),
            ),
        )
    } else {
        None
    }
}

/// The result of one `next_token` call on `data` from the state
/// (`start`, `offset`, `line`), with the state it leaves.
pub open spec fn next_spec(data: Seq<u8>, start: nat, offset: nat, line: nat) -> (
    Option<Result<Token, ScanError>>,
    nat,
    nat,
    nat,
) {
    if start >= data.len() {
        (None, start, offset, line)
    } else {
        let (found, s, l) = skip_spec(data, offset, line);
        if !found {
            (None, start, s, l)
        } else {
            let b = data[s as int];
            let tok = |t: TokenType, line: nat| Token { t_type: t, start: s as usize, len: 1, line: line as usize };
            if single_char(b) is Some {
                (Some(Ok(tok(TokenType::SingleChar(single_char(b)->Some_0), l))), s, s + 1, l)
            } else if pair_char(b) is Some {
                let (alone, with_eq) = pair_char(b)->Some_0;
                if s + 1 < data.len() && data[s + 1 as int] == 61 {
                    (Some(Ok(tok(with_eq, l))), s, s + 2, l)
                } else {
                    (Some(Ok(tok(alone, l))), s, s + 1, l)
                }
            } else if b == 34 {
                let (closed, o, l2) = string_spec(data, s + 1, l);
                if closed {
                    (Some(Ok(tok(TokenType::Literal(Literal::LitString), l2))), s, o, l2)
                } else {
                    (Some(Err(ScanError::UnterminatedString(s as usize, o as usize))), s, o, l2)
                }
            } else {
                (Some(Ok(tok(TokenType::Eof, l))), s, s + 1, l)
            }
        }
    }
}

/// Scanning a string body stays within the data.
proof fn lemma_string_bounds(data: Seq<u8>, o: nat, line: nat)
    requires
        o <= data.len(),
    ensures
        o <= string_spec(data, o, line).1 <= data.len(),
    decreases data.len() - o,
{
    if o < data.len() && data[o as int] != 34 {
        if data[o as int] == 10 {
            lemma_string_bounds(data, o + 1, next_line(line));
        } else {
            lemma_string_bounds(data, o + 1, line);
        }
    }
}

/// A call that returns a token moves the read offset forward, within the
/// data, and the token is one byte of the data.
pub proof fn lemma_next_progress(data: Seq<u8>, start: nat, offset: nat, line: nat)
    requires
        offset <= data.len(),
    ensures
        ({
            let (r, s, o, l) = next_spec(data, start, offset, line);
            &&& o <= data.len()
            &&& r matches Some(Ok(t)) ==> offset < o && t.start < data.len() && t.len == 1
        }),
{
    lemma_skip_found(data, offset, line, false);
    let (found, s, l) = skip_spec(data, offset, line);
    if start < data.len() && found {
        lemma_string_bounds(data, s + 1, l);
    }
}

/// The tokens that successive `next_token` calls return from the state
/// (`start`, `offset`, `line`), and the error that ends them, if any.
pub open spec fn scan_from(data: Seq<u8>, start: nat, offset: nat, line: nat) -> (
    Seq<Token>,
    Option<ScanError>,
)
    decreases data.len() - offset,
{
    if offset > data.len() {
        (Seq::empty(), None)
    } else {
        let (r, s, o, l) = next_spec(data, start, offset, line);
        match r {
            None => (Seq::empty(), None),
            Some(Err(e)) => (Seq::empty(), Some(e)),
            Some(Ok(t)) => {
                proof {
                    lemma_next_progress(data, start, offset, line);
                }
                let (ts, e) = scan_from(data, s, o, l);
                (seq![t] + ts, e)
            },
        }
    }
}

/// Reads tokens from source bytes.
#[derive(Debug)]
pub struct Scanner<'a> {
    data: &'a [u8],
    /// Offset of the first byte of the current lexeme.
    start: usize,
    /// Offset of the next byte to read.
    offset: usize,
    /// Line of the next byte, counted from 1.
    line: usize,
}

impl<'a> Scanner<'a> {
    pub closed spec fn data_view(&self) -> Seq<u8> {
        self.data@
    }

    pub closed spec fn start_view(&self) -> nat {
        self.start as nat
    }

    pub closed spec fn offset_view(&self) -> nat {
        self.offset as nat
    }

    pub closed spec fn line_view(&self) -> nat {
        self.line as nat
    }

    /// The tokens and final error that the remaining `next_token` calls give.
    pub open spec fn remaining(&self) -> (Seq<Token>, Option<ScanError>) {
        scan_from(self.data_view(), self.start_view(), self.offset_view(), self.line_view())
    }

    /// The read offset stays within the data.
    pub closed spec fn wf(&self) -> bool {
        self.offset <= self.data@.len()
    }

    /// A scanner at the start of `data`, on line 1.
    pub fn new(data: &'a [u8]) -> (r: Scanner<'a>)
        ensures
            r.wf(),
            r.data_view() == data@,
            r.start_view() == 0,
            r.offset_view() == 0,
            r.line_view() == 1,
    {
        Scanner { data, start: 0, offset: 0, line: 1 }
    }

    /// Scans the next token. Returns `None` once the data holds no more
    /// tokens.
    pub fn next_token(&mut self) -> (r: Option<Result<Token, ScanError>>)
        requires
            old(self).wf(),
        ensures
            final(self).wf(),
            final(self).offset_view() <= final(self).data_view().len(),
            final(self).data_view() == old(self).data_view(),
            (r, final(self).start_view(), final(self).offset_view(), final(self).line_view())
                == next_spec(
                old(self).data_view(),
                old(self).start_view(),
                old(self).offset_view(),
                old(self).line_view(),
            ),
    {
        if self.start >= self.data.len() {
            return None;
        }
        proof {
            lemma_skip_found(self.data@, self.offset as nat, self.line as nat, false);
        }
        if self.skip_non_tokens().is_none() {
            return None;
        }
        self.start = self.offset;
        let b = match self.next_byte() {
            Some(b) => b,
            None => return None,
        };
        let token_type = match b {
            40u8 => TokenType::SingleChar(SingleChar::LeftParen),
            41u8 => TokenType::SingleChar(SingleChar::RightParen),
            123u8 => TokenType::SingleChar(SingleChar::LeftBrace),
            125u8 => TokenType::SingleChar(SingleChar::RightBrace),
            44u8 => TokenType::SingleChar(SingleChar::Comma),
            46u8 => TokenType::SingleChar(SingleChar::Dot),
            45u8 => TokenType::SingleChar(SingleChar::Minus),
            43u8 => TokenType::SingleChar(SingleChar::Plus),
            59u8 => TokenType::SingleChar(SingleChar::SemiColon),
            58u8 => TokenType::SingleChar(SingleChar::Colon),
            47u8 => TokenType::SingleChar(SingleChar::Slash),
            42u8 => TokenType::SingleChar(SingleChar::Star),
            63u8 => TokenType::SingleChar(SingleChar::Question),
            33u8 => if self.match_next(61u8) {
                TokenType::Comparison(Comparison::BangEqual)
            } else {
                TokenType::SingleChar(SingleChar::Bang)
            },
            61u8 => if self.match_next(61u8) {
                TokenType::Comparison(Comparison::EqualEqual)
            } else {
                TokenType::SingleChar(SingleChar::Equal)
            },
            60u8 => if self.match_next(61u8) {
                TokenType::Comparison(Comparison::LessEqual)
            } else {
                TokenType::Comparison(Comparison::Less)
            },
            62u8 => if self.match_next(61u8) {
                TokenType::Comparison(Comparison::GreaterEqual)
            } else {
                TokenType::Comparison(Comparison::Greater)
            },
            34u8 => match self.string() {
                Ok(t) => t,
                Err(e) => return Some(Err(e)),
            },
            _ => TokenType::Eof,
        };
        Some(Ok(Token::new(token_type, self.start, 1, self.line)))
    }

    /// Reads the next byte, if there is one.
    fn next_byte(&mut self) -> (r: Option<u8>)
        requires
            old(self).wf(),
        ensures
            final(self).wf(),
            final(self).data_view() == old(self).data_view(),
            final(self).start_view() == old(self).start_view(),
            final(self).line_view() == old(self).line_view(),
            old(self).offset < old(self).data@.len() ==> r == Some(
                old(self).data@[old(self).offset as int],
            ) && final(self).offset == old(self).offset + 1,
            old(self).offset >= old(self).data@.len() ==> r is None && final(self).offset
                == old(self).offset,
    {
        if self.offset < self.data.len() {
            let b = self.data[self.offset];
            self.offset = self.offset + 1;
            Some(b)
        } else {
            None
        }
    }

    /// The next byte, without reading it.
    fn peek_next(&self) -> (r: Option<u8>)
        ensures
            self.offset < self.data@.len() ==> r == Some(self.data@[self.offset as int]),
            self.offset >= self.data@.len() ==> r is None,
    {
        if self.offset < self.data.len() {
            Some(self.data[self.offset])
        } else {
            None
        }
    }

    /// Reads the next byte if it is `expected`.
    fn match_next(&mut self, expected: u8) -> (r: bool)
        requires
            old(self).wf(),
        ensures
            final(self).wf(),
            final(self).data_view() == old(self).data_view(),
            final(self).start_view() == old(self).start_view(),
            final(self).line_view() == old(self).line_view(),
            r == (old(self).offset < old(self).data@.len() && old(self).data@[old(self).offset as int]
                == expected),
            final(self).offset == if r {
                old(self).offset + 1
            } else {
                old(self).offset as int
            },
    {
        if self.offset < self.data.len() && self.data[self.offset] == expected {
            self.offset = self.offset + 1;
            true
        } else {
            false
        }
    }

    /// Reads the rest of a string literal, up to and including its closing
    /// quote.
    fn string(&mut self) -> (r: Result<TokenType, ScanError>)
        requires
            old(self).wf(),
        ensures
            final(self).wf(),
            final(self).data_view() == old(self).data_view(),
            final(self).start_view() == old(self).start_view(),
            ({
                let (closed, o, l) = string_spec(
                    old(self).data_view(),
                    old(self).offset_view(),
                    old(self).line_view(),
                );
                &&& final(self).offset_view() == o
                &&& final(self).line_view() == l
                &&& closed ==> r == Ok::<TokenType, ScanError>(
                    TokenType::Literal(Literal::LitString),
                )
                &&& !closed ==> r == Err::<TokenType, ScanError>(
                    ScanError::UnterminatedString(old(self).start, o as usize),
                )
            }),
    {
        let ghost goal = string_spec(self.data@, self.offset as nat, self.line as nat);
        while self.offset < self.data.len() && self.data[self.offset] != 34u8
            invariant
                self.wf(),
                self.data@ == old(self).data@,
                self.start == old(self).start,
                string_spec(self.data@, self.offset as nat, self.line as nat) == goal,
            decreases self.data@.len() - self.offset,
        {
            if self.data[self.offset] == 10u8 {
                self.line = self.line.saturating_add(1);
            }
            self.offset = self.offset + 1;
        }
        if self.is_at_end() {
            return Err(ScanError::UnterminatedString(self.start, self.offset));
        }
        self.offset = self.offset + 1;
        Ok(TokenType::Literal(Literal::LitString))
    }

    /// Number of bytes not read yet.
    fn _bytes_left(&self) -> (r: usize)
        requires
            self.wf(),
        ensures
            r == self.data@.len() - self.offset,
    {
        self.data.len() - self.offset
    }

    /// Whether every byte has been read.
    fn is_at_end(&self) -> (r: bool)
        ensures
            r == (self.offset == self.data@.len()),
    {
        self.data.len() == self.offset
    }

    /// Skips blanks, newlines and `//` comments, counting lines. Returns
    /// `None` when the data ends first.
    fn skip_non_tokens(&mut self) -> (r: Option<()>)
        requires
            old(self).wf(),
        ensures
            final(self).wf(),
            final(self).data_view() == old(self).data_view(),
            final(self).start_view() == old(self).start_view(),
            (r is Some, final(self).offset_view(), final(self).line_view()) == skip_spec(
                old(self).data_view(),
                old(self).offset_view(),
                old(self).line_view(),
            ),
    {
        let ghost goal = skip_spec(self.data@, self.offset as nat, self.line as nat);
        let n = self.data.len();
        loop
            invariant
                self.wf(),
                self.data@ == old(self).data@,
                n == self.data@.len(),
                self.start == old(self).start,
                skip_spec(self.data@, self.offset as nat, self.line as nat) == goal,
                goal == skip_spec(old(self).data@, old(self).offset as nat, old(self).line as nat),
            decreases self.data@.len() - self.offset,
        {
            let b = match self.peek_next() {
                Some(b) => b,
                None => return None,
            };
            if b == 32u8 || b == 13u8 || b == 9u8 {
                self.offset = self.offset + 1;
            } else if b == 10u8 {
                self.line = self.line.saturating_add(1);
                self.offset = self.offset + 1;
            } else if b == 47u8 && self.offset + 1 < n && self.data[self.offset + 1] == 47u8 {
                let ghost before = self.offset;
                self.offset = self.offset + 2;
                while self.offset < n && self.data[self.offset] != 10u8
                    invariant
                        self.wf(),
                        self.offset > before,
                        self.data@ == old(self).data@,
                        n == self.data@.len(),
                        self.start == old(self).start,
                        skip_comment_spec(self.data@, self.offset as nat, self.line as nat)
                            == goal,
                        goal == skip_spec(
                            old(self).data@,
                            old(self).offset as nat,
                            old(self).line as nat,
                        ),
                    decreases self.data@.len() - self.offset,
                {
                    self.offset = self.offset + 1;
                }
                if self.is_at_end() {
                    return None;
                }
            } else {
                return Some(());
            }
        }
    }
}

/// Errors raised while scanning.
#[derive(Debug, Clone, Copy, PartialEq, Eq, Structural)]
pub enum ScanError {
    /// A string opened at the first offset is still open at the second,
    /// the end of the data.
    UnterminatedString(usize, usize),
    CannotConsumeByte,
}

} // verus!
