//! What the tokenizer recognises, as functions on sequences of bytes.
//!
//! A [`State`] is what a tokenizer holds. [`step`] says, for every state, what
//! the next request yields and in which state it leaves the tokenizer. It is
//! built from a few searches in the bytes: [`first_where`], [`skip_blanks`],
//! [`literal_close`] and [`body`].

use vstd::prelude::*;
use crate::lexer::buffer::{min, slice_of, splice};
use crate::lexer::error::LexerErrorCode;
use crate::lexer::helpers::{
    spec_is_ident_continue, spec_is_ident_start, spec_is_quote, spec_is_whitespace, BACKSLASH,
    HASH, LEFT_CURLY, NEWLINE, RIGHT_CURLY,
};
use crate::lexer::text::text;
use crate::lexer::token::{keyword_of, paired, single, Lexeme, Token};

verus! {

/// How the tokenizer reads: the syntax of the language, or the body of an
/// action block.
#[derive(Clone, Copy, Debug, PartialEq, Eq, PartialOrd, Ord, Structural)]
pub enum TokenizerMode {
    Action,
    Normal,
}

/// What one request for a token yields.
pub enum Outcome {
    /// Nothing is left to read.
    End,
    /// A token that reaches from offset `start` up to offset `end`.
    Token { start: int, lexeme: Lexeme, end: int },
    /// A failure found at offset `location`.
    Error { code: LexerErrorCode, location: int },
}

/// What a tokenizer holds: the bytes, the cursor of its buffer, the byte it
/// has read ahead with the offset it was read at, and the mode.
pub struct State {
    pub bytes: Seq<u8>,
    pub cursor: int,
    pub lookahead: Option<(int, u8)>,
    pub mode: TokenizerMode,
}

/// An outcome and the state that the tokenizer is left in.
pub struct Step {
    pub outcome: Outcome,
    pub state: State,
}

/// The state in which the byte at offset `p` of `bytes` has just been read: it
/// is the lookahead, and the cursor is behind it. From the end of the bytes on
/// there is no lookahead.
pub open spec fn reading(bytes: Seq<u8>, mode: TokenizerMode, p: int) -> State {
    if 0 <= p < bytes.len() {
        State { bytes, cursor: p + 1, lookahead: Some((p, bytes[p])), mode }
    } else {
        State { bytes, cursor: bytes.len() as int, lookahead: None, mode }
    }
}

impl State {
    /// The cursor lies within the bytes or just behind them, and so did the
    /// offset at which the lookahead was read.
    pub open spec fn wf(self) -> bool {
        &&& 0 <= self.cursor <= self.bytes.len()
        &&& self.lookahead matches Some((i, _)) ==> 0 <= i < self.bytes.len()
    }

    /// The state with the same bytes and mode in which the byte at offset `p`
    /// has just been read.
    pub open spec fn at(self, p: int) -> State {
        reading(self.bytes, self.mode, p)
    }

    /// The state after `data` has been put in at the cursor: a tokenizer that
    /// had no lookahead reads the first of the new bytes.
    pub open spec fn with_data(self, data: Seq<u8>) -> State {
        let grown = State { bytes: splice(self.bytes, self.cursor, data), ..self };
        if self.lookahead is None {
            grown.advance()
        } else {
            grown
        }
    }

    /// The state after the cursor has been moved to offset `p`, or to the end
    /// of the bytes if that is nearer. The lookahead stays what it was.
    pub open spec fn seek(self, p: int) -> State {
        State { cursor: min(p, self.bytes.len() as int), ..self }
    }

    /// The state after reading one byte at the cursor.
    pub open spec fn advance(self) -> State {
        if self.cursor < self.bytes.len() {
            self.at(self.cursor)
        } else {
            State { lookahead: None, ..self }
        }
    }

    /// The same state in another mode.
    pub open spec fn in_mode(self, mode: TokenizerMode) -> State {
        State { mode, ..self }
    }

    /// The offset that the tokenizer reads at: that of the lookahead, or the
    /// end of the bytes when there is none.
    pub open spec fn position(self) -> int {
        match self.lookahead {
            Some((i, _)) => i,
            None => self.bytes.len() as int,
        }
    }

    /// The state after reading on until the lookahead satisfies `stop`, or
    /// to the end of the bytes if no byte does.
    pub open spec fn until(self, stop: spec_fn(u8) -> bool) -> State {
        match self.lookahead {
            None => self,
            Some((_, b)) => if stop(b) {
                self
            } else {
                self.at(first_where(self.bytes, self.cursor, stop))
            },
        }
    }

    /// The state after reading on until the lookahead satisfies `stop`, and
    /// then past that byte.
    pub open spec fn past(self, stop: spec_fn(u8) -> bool) -> State {
        let found = self.until(stop);
        if found.lookahead is Some {
            found.advance()
        } else {
            found
        }
    }

    /// The lookahead is the byte just before the cursor, as it is after
    /// every read; a tokenizer loses this only when its cursor is moved.
    pub open spec fn in_step(self) -> bool {
        self == self.at(self.position())
    }
}

/// The first offset from `from` on whose byte satisfies `stop`; the length of
/// `bytes` if there is none.
pub open spec fn first_where(bytes: Seq<u8>, from: int, stop: spec_fn(u8) -> bool) -> int
    decreases bytes.len() - from,
{
    if from >= bytes.len() {
        bytes.len() as int
    } else if stop(bytes[from]) {
        from
    } else {
        first_where(bytes, from + 1, stop)
    }
}

/// The bytes that end a comment.
pub open spec fn newline() -> spec_fn(u8) -> bool {
    |b: u8| b == NEWLINE
}

/// The bytes that end a word.
pub open spec fn word_break() -> spec_fn(u8) -> bool {
    |b: u8| !spec_is_ident_continue(b)
}

/// The offset behind the first line feed from `from` on; the length of
/// `bytes` if there is none.
pub open spec fn line_end(bytes: Seq<u8>, from: int) -> int {
    let at = first_where(bytes, from, newline());
    if at < bytes.len() {
        at + 1
    } else {
        at
    }
}

/// The first offset from `from` on that is neither white space nor part of a
/// comment; the length of `bytes` if there is none. A comment reaches from
/// `#` to the next line feed.
pub open spec fn skip_blanks(bytes: Seq<u8>, from: int) -> int
    decreases bytes.len() - from,
    via skip_blanks_decreases
{
    if from < 0 || from >= bytes.len() {
        bytes.len() as int
    } else if bytes[from] == HASH {
        skip_blanks(bytes, line_end(bytes, from + 1))
    } else if spec_is_whitespace(bytes[from]) {
        skip_blanks(bytes, from + 1)
    } else {
        from
    }
}

#[via_fn]
proof fn skip_blanks_decreases(bytes: Seq<u8>, from: int) {
    if 0 <= from < bytes.len() {
        lemma_first_where(bytes, from + 1, newline());
    }
}

/// Inside a literal whose text starts at offset `from`, the byte at offset
/// `at` is escaped: an unescaped backslash stands before it.
pub open spec fn escaped(bytes: Seq<u8>, from: int, at: int) -> bool
    decreases at - from,
{
    from < at && bytes[at - 1] == BACKSLASH && !escaped(bytes, from, at - 1)
}

/// The byte at offset `at` closes the literal that `delim` opened and whose
/// text starts at offset `from`.
pub open spec fn closes(bytes: Seq<u8>, from: int, delim: u8, at: int) -> bool {
    bytes[at] == delim && bytes[at] != BACKSLASH && !escaped(bytes, from, at)
}

/// The first offset from `at` on that closes the literal; the length of
/// `bytes` if there is none.
pub open spec fn first_closing(bytes: Seq<u8>, from: int, delim: u8, at: int) -> int
    decreases bytes.len() - at,
{
    if at >= bytes.len() {
        bytes.len() as int
    } else if closes(bytes, from, delim, at) {
        at
    } else {
        first_closing(bytes, from, delim, at + 1)
    }
}

/// The offset of the delimiter that closes the literal whose text starts at
/// offset `from`; the length of `bytes` if nothing closes it.
pub open spec fn literal_close(bytes: Seq<u8>, from: int, delim: u8) -> int {
    first_closing(bytes, from, delim, from)
}

/// `first_where` finds the first byte that satisfies `stop`: the byte it
/// points at does, if it points at one, and no byte from `from` up to it
/// does.
pub proof fn lemma_first_where(bytes: Seq<u8>, from: int, stop: spec_fn(u8) -> bool)
    requires
        0 <= from <= bytes.len(),
    ensures
        from <= first_where(bytes, from, stop) <= bytes.len(),
        first_where(bytes, from, stop) < bytes.len() ==> stop(
            bytes[first_where(bytes, from, stop)],
        ),
        forall|k: int| from <= k < first_where(bytes, from, stop) ==> !stop(#[trigger] bytes[k]),
    decreases bytes.len() - from,
{
    if from < bytes.len() && !stop(bytes[from]) {
        lemma_first_where(bytes, from + 1, stop);
    }
}

/// `first_closing` finds the first byte from `at` on that closes the literal.
pub proof fn lemma_first_closing(bytes: Seq<u8>, from: int, delim: u8, at: int)
    requires
        0 <= at <= bytes.len(),
    ensures
        at <= first_closing(bytes, from, delim, at) <= bytes.len(),
        first_closing(bytes, from, delim, at) < bytes.len() ==> closes(
            bytes,
            from,
            delim,
            first_closing(bytes, from, delim, at),
        ),
        forall|k: int|
            at <= k < first_closing(bytes, from, delim, at) ==> !#[trigger] closes(
                bytes,
                from,
                delim,
                k,
            ),
    decreases bytes.len() - at,
{
    if at < bytes.len() && !closes(bytes, from, delim, at) {
        lemma_first_closing(bytes, from, delim, at + 1);
    }
}

/// The step that yields a token and leaves the tokenizer in `state`.
pub open spec fn token(start: int, lexeme: Lexeme, end: int, state: State) -> Step {
    Step { outcome: Outcome::Token { start, lexeme, end }, state }
}

/// The step that yields a failure and leaves the tokenizer in `state`.
pub open spec fn failure(code: LexerErrorCode, location: int, state: State) -> Step {
    Step { outcome: Outcome::Error { code, location }, state }
}

/// The text of the bytes from `start` up to `end`.
pub open spec fn text_of(bytes: Seq<u8>, start: int, end: int) -> Seq<char> {
    text(slice_of(bytes, start, end))
}

/// A string literal whose opening quote `delim` was read at offset `start`
/// and whose text starts at offset `from`. The token reaches from the opening
/// quote to behind the closing one and carries the bytes between them as they
/// stand, escapes included. If nothing closes the literal, the rest of the
/// bytes is read and the failure is reported at the opening quote.
pub open spec fn literal(s: State, start: int, delim: u8, from: int) -> Step {
    let close = literal_close(s.bytes, from, delim);
    if close < s.bytes.len() {
        token(
            start,
            Lexeme::StringLiteral(text_of(s.bytes, start + 1, close)),
            close + 1,
            s.at(close + 1),
        )
    } else {
        failure(LexerErrorCode::UnterminatedStringLiteral, start, s.at(s.bytes.len() as int))
    }
}

/// A word whose first byte was read at offset `start` and which goes on at
/// offset `from`: it ends before the first byte that cannot continue an
/// identifier. It is a reserved word if it spells one, and an identifier
/// otherwise. The word `actions` puts the tokenizer in action mode.
pub open spec fn word(s: State, start: int, from: int) -> Step {
    let end = first_where(s.bytes, from, word_break());
    let text = text_of(s.bytes, start, end);
    match keyword_of(text) {
        Some(t) => token(
            start,
            Lexeme::Fixed(t),
            end,
            if t == Token::Actions {
                s.at(end).in_mode(TokenizerMode::Action)
            } else {
                s.at(end)
            },
        ),
        None => token(start, Lexeme::Ident(text), end, s.at(end)),
    }
}

/// A token of one byte, read at offset `start`: the next byte is read.
pub open spec fn one_byte(s: State, start: int, t: Token) -> Step {
    token(start, Lexeme::Fixed(t), start + 1, s.advance())
}

/// A byte, read at offset `start`, that makes the token `two` together with
/// the byte `second`. If `second` is the next byte, the token reaches behind
/// it. If it is not, the first byte is the token `one`, or unexpected where
/// it is no token by itself.
pub open spec fn two_bytes(s: State, start: int, second: u8, two: Token, one: Option<Token>) -> Step {
    let next = s.cursor;
    if next < s.bytes.len() && s.bytes[next] == second {
        token(start, Lexeme::Fixed(two), next + 1, s.at(next + 1))
    } else {
        match one {
            Some(t) => token(start, Lexeme::Fixed(t), start + 1, s.advance()),
            None => failure(LexerErrorCode::UnexpectedToken, start, s.advance()),
        }
    }
}

/// The token that starts with the lookahead `b`, read at offset `start`, in
/// normal mode, where `b` is neither white space nor `#`.
pub open spec fn normal_token(s: State, start: int, b: u8) -> Step {
    let next = s.cursor;
    if let Some(t) = single(b) {
        one_byte(s, start, t)
    } else if let Some((second, two, one)) = paired(b) {
        two_bytes(s, start, second, two, one)
    } else if spec_is_quote(b) {
        literal(s, start, b, next)
    } else if spec_is_ident_start(b) {
        word(s, start, next)
    } else {
        failure(LexerErrorCode::UnrecognizedToken, start, s)
    }
}

/// What a request yields in normal mode when the tokenizer reads at offset
/// `p`: the token that starts at the first offset from `p` on that is not
/// blank, or the end if there is no such offset.
pub open spec fn normal_at(s: State, p: int) -> Step {
    let q = skip_blanks(s.bytes, p);
    if q < s.bytes.len() {
        normal_token(s.at(q), q, s.bytes[q])
    } else {
        Step { outcome: Outcome::End, state: s.at(q) }
    }
}

/// Reading at offset `q`, a request in normal mode yields what `normal_at`
/// says of `q`.
pub proof fn lemma_normal_step_at(s: State, q: int)
    requires
        0 <= q,
    ensures
        normal_step(s.at(q)) == normal_at(s, q),
{
}

/// What a request yields in normal mode. Without a lookahead the input is at
/// its end and the state stays as it is.
pub open spec fn normal_step(s: State) -> Step {
    match s.lookahead {
        None => Step { outcome: Outcome::End, state: s },
        Some((i, b)) => if b == HASH {
            normal_at(s, line_end(s.bytes, s.cursor))
        } else if spec_is_whitespace(b) {
            normal_at(s, s.cursor)
        } else {
            normal_token(s, i, b)
        },
    }
}

/// The body of an action block, which started at offset `start`, read from
/// offset `at` on with `depth` braces open. A quote starts a literal, whose
/// bytes are passed over; `open` adds to the depth and `close` takes from it.
/// The `close` that brings the depth to zero ends the body: the token carries
/// the bytes before it, it stays the lookahead, and the tokenizer is back in
/// normal mode. At the end of the bytes the body is unterminated if braces
/// are still open, and otherwise reaches to the end.
pub open spec fn body(
    bytes: Seq<u8>,
    mode: TokenizerMode,
    start: int,
    at: int,
    depth: int,
    open: u8,
    close: u8,
) -> Step
    decreases bytes.len() - at, 0int,
{
    if 0 <= at < bytes.len() {
        body_byte(reading(bytes, mode, at), start, at, bytes[at], depth, open, close)
    } else if depth > 0 {
        failure(
            LexerErrorCode::UnterminatedCodeBlock,
            start,
            reading(bytes, mode, bytes.len() as int),
        )
    } else {
        token(
            start,
            Lexeme::ActionString(text_of(bytes, start, bytes.len() as int)),
            bytes.len() as int,
            reading(bytes, TokenizerMode::Normal, bytes.len() as int),
        )
    }
}

/// The body of an action block at the byte `b`, which is the lookahead of `s`
/// and was read at offset `at`; the body goes on at the cursor of `s`.
pub open spec fn body_byte(
    s: State,
    start: int,
    at: int,
    b: u8,
    depth: int,
    open: u8,
    close: u8,
) -> Step
    decreases s.bytes.len() - s.cursor, 1int,
    via body_byte_decreases
{
    if spec_is_quote(b) {
        let end = literal_close(s.bytes, s.cursor, b);
        if s.cursor <= end < s.bytes.len() {
            body(s.bytes, s.mode, start, end + 1, depth, open, close)
        } else {
            failure(LexerErrorCode::UnterminatedStringLiteral, at, s.at(s.bytes.len() as int))
        }
    } else if b == open {
        body(s.bytes, s.mode, start, s.cursor, depth + 1, open, close)
    } else if b == close && depth == 1 {
        token(
            start,
            Lexeme::ActionString(text_of(s.bytes, start, at)),
            at,
            s.in_mode(TokenizerMode::Normal),
        )
    } else if b == close {
        body(s.bytes, s.mode, start, s.cursor, depth - 1, open, close)
    } else {
        body(s.bytes, s.mode, start, s.cursor, depth, open, close)
    }
}

#[via_fn]
proof fn body_byte_decreases(
    s: State,
    start: int,
    at: int,
    b: u8,
    depth: int,
    open: u8,
    close: u8,
) {
}

/// The body of an action block, which started at offset `start`, read on from
/// the lookahead of `s` with `depth` braces open.
pub open spec fn capture(s: State, start: int, depth: int, open: u8, close: u8) -> Step {
    match s.lookahead {
        Some((i, b)) => body_byte(s, start, i, b, depth, open, close),
        None => body(s.bytes, s.mode, start, s.bytes.len() as int, depth, open, close),
    }
}

/// What a request yields in action mode: a brace is a token by itself, and
/// any other byte starts the body of the block. Without a lookahead no token
/// can be made.
pub open spec fn action_step(s: State) -> Step {
    match s.lookahead {
        None => failure(LexerErrorCode::UnrecognizedToken, s.cursor, s),
        Some((i, b)) => if b == LEFT_CURLY {
            token(i, Lexeme::Fixed(Token::LeftBracket), i + 1, s.advance())
        } else if b == RIGHT_CURLY {
            token(i, Lexeme::Fixed(Token::RightBracket), i + 1, s.advance())
        } else {
            capture(s, i, 1, LEFT_CURLY, RIGHT_CURLY)
        },
    }
}

/// What a request for the next token yields in state `s`.
pub open spec fn step(s: State) -> Step {
    match s.mode {
        TokenizerMode::Action => action_step(s),
        TokenizerMode::Normal => normal_step(s),
    }
}

} // verus!
