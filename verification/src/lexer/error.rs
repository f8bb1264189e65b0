//! What the tokenizer reports when it cannot go on.

use vstd::prelude::*;

verus! {

/// The kinds of lexical failure.
#[derive(Clone, Copy, Debug, PartialEq, Eq, Structural)]
pub enum LexerErrorCode {
    /// A byte that needs a second byte to make a token was not followed by it.
    UnexpectedToken,
    /// A byte that starts no token, or no byte where one was needed.
    UnrecognizedToken,
    /// The input ended inside the body of an action block.
    UnterminatedCodeBlock,
    /// The input ended inside a string literal.
    UnterminatedStringLiteral,
}

/// A lexical failure and the offset at which it was found.
#[derive(Debug)]
pub struct LexerError {
    pub code: LexerErrorCode,
    pub location: usize,
}

impl LexerError {
    /// The failure `c` at offset `l`, as the error of a result.
    pub fn create<T>(c: LexerErrorCode, l: usize) -> (r: Result<T, LexerError>)
        ensures
            r == Err::<T, LexerError>(LexerError { code: c, location: l }),
    {
        Err(LexerError { code: c, location: l })
    }
}

} // verus!
