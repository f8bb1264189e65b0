//! The tokenizer: a buffer, one byte of lookahead and a mode.

use vstd::prelude::*;
use crate::lexer::buffer::DynamicByteBuffer;
use crate::lexer::error::{LexerError, LexerErrorCode};
use crate::lexer::grammar::{
    action_step, capture, escaped, first_closing, lemma_first_closing, lemma_first_where,
    lemma_normal_step_at, line_end, literal, literal_close, newline,
    normal_step, normal_token, one_byte, reading, step, text_of, two_bytes, word, word_break,
    Outcome, State, TokenizerMode,
};
use crate::lexer::helpers::{
    is_ident_continue, is_ident_start, is_quote, is_whitespace, spec_is_ident_start, BACKSLASH,
    HASH, LEFT_CURLY, NEWLINE, RIGHT_CURLY,
};
use crate::lexer::token::{keyword, paired_tokens, single_token, Lexeme, Spanned, Token};

verus! {

/// A lookahead with its offset as a mathematical integer.
pub open spec fn widen(lookahead: Option<(usize, u8)>) -> Option<(int, u8)> {
    match lookahead {
        Some((i, b)) => Some((i as int, b)),
        None => None,
    }
}

/// An offset as a mathematical integer.
pub open spec fn widen_offset(offset: Option<usize>) -> Option<int> {
    match offset {
        Some(i) => Some(i as int),
        None => None,
    }
}

/// The offset of a lookahead.
pub open spec fn offset_of(lookahead: Option<(int, u8)>) -> Option<int> {
    match lookahead {
        Some((i, _)) => Some(i),
        None => None,
    }
}

/// What the result of a request says.
pub open spec fn outcome_of(r: Option<Spanned<Token, usize, LexerError>>) -> Outcome {
    match r {
        None => Outcome::End,
        Some(Ok((start, token, end))) => Outcome::Token {
            start: start as int,
            lexeme: token@,
            end: end as int,
        },
        Some(Err(e)) => Outcome::Error { code: e.code, location: e.location as int },
    }
}

/// Turns bytes into tokens, one at each request. Bytes may be added at any
/// time.
pub struct Tokenizer {
    buffer: DynamicByteBuffer,
    lookahead: Option<(usize, u8)>,
    mode: TokenizerMode,
}

impl View for Tokenizer {
    type V = State;

    closed spec fn view(&self) -> State {
        State {
            bytes: self.buffer@,
            cursor: self.buffer.cursor(),
            lookahead: widen(self.lookahead),
            mode: self.mode,
        }
    }
}

impl Tokenizer {
    /// The cursor and the offset of the lookahead lie within the bytes.
    pub open spec fn wf(&self) -> bool {
        self@.wf()
    }

    /// A tokenizer without bytes, in normal mode.
    pub fn new() -> (t: Tokenizer)
        ensures
            t.wf(),
            t@ == reading(Seq::<u8>::empty(), TokenizerMode::Normal, 0),
    {
        let mut t = Tokenizer {
            buffer: DynamicByteBuffer::new(),
            lookahead: None,
            mode: TokenizerMode::Normal,
        };
        t.advance();
        t
    }

    /// Reads the byte at the cursor: it becomes the lookahead and is
    /// returned with its offset. At the end of the bytes there is none.
    pub fn advance(&mut self) -> (r: Option<(usize, u8)>)
        requires
            old(self).wf(),
        ensures
            final(self).wf(),
            final(self)@ == old(self)@.advance(),
            widen(r) == final(self)@.lookahead,
    {
        self.lookahead = self.buffer.next();
        self.lookahead
    }

    /// Puts `buffer` in at the cursor: behind the bytes that were read, and
    /// so at the end once all bytes were read. A tokenizer that had no
    /// lookahead reads the first of the new bytes.
    pub fn include_data(&mut self, buffer: &[u8])
        requires
            old(self).wf(),
        ensures
            final(self).wf(),
            final(self)@ == old(self)@.with_data(buffer@),
    {
        self.buffer.insert(buffer);
        if self.lookahead.is_none() {
            self.advance();
        }
    }

    /// The cursor of the buffer.
    pub fn index(&self) -> (i: usize)
        ensures
            i == self@.cursor,
    {
        self.buffer.index()
    }

    /// Moves the cursor of the buffer to `new_idx`, or to the end of the
    /// bytes if that is nearer. The lookahead stays what it was; the next
    /// read takes the byte at the cursor.
    pub fn seek(&mut self, new_idx: usize)
        requires
            old(self).wf(),
        ensures
            final(self).wf(),
            final(self)@ == old(self)@.seek(new_idx as int),
    {
        self.buffer.set_index(new_idx);
    }

    /// The buffer that holds the bytes.
    pub fn buffer(&self) -> (b: &DynamicByteBuffer)
        ensures
            b@ == self@.bytes,
            b.cursor() == self@.cursor,
    {
        &self.buffer
    }

    /// The byte read ahead and the offset it was read at.
    pub fn lookahead(&self) -> (r: Option<(usize, u8)>)
        ensures
            widen(r) == self@.lookahead,
    {
        self.lookahead
    }

    /// The mode.
    pub fn mode(&self) -> (m: TokenizerMode)
        ensures
            m == self@.mode,
    {
        self.mode
    }

    /// Puts the tokenizer in `mode`.
    pub fn set_mode(&mut self, mode: TokenizerMode)
        ensures
            final(self)@ == old(self)@.in_mode(mode),
    {
        self.mode = mode;
    }

    /// Reads on while `keep_going` holds of the lookahead. Returns the
    /// offset of the byte that it stopped at, if there is one.
    fn take_while<F: Fn(u8) -> bool>(
        &mut self,
        keep_going: F,
        Ghost(stop): Ghost<spec_fn(u8) -> bool>,
    ) -> (r: Option<usize>)
        requires
            old(self).wf(),
            forall|b: u8| call_requires(keep_going, (b,)),
            forall|b: u8, r: bool| call_ensures(keep_going, (b,), r) ==> r == !stop(b),
        ensures
            final(self).wf(),
            final(self)@ == old(self)@.until(stop),
            widen_offset(r) == offset_of(final(self)@.lookahead),
    {
        self.read_to(keep_going, false, Ghost(stop))
    }

    /// Reads on until `terminate` holds of the lookahead. Returns the
    /// offset of the byte that it stopped at, if there is one.
    fn take_until<F: Fn(u8) -> bool>(
        &mut self,
        terminate: F,
        Ghost(stop): Ghost<spec_fn(u8) -> bool>,
    ) -> (r: Option<usize>)
        requires
            old(self).wf(),
            forall|b: u8| call_requires(terminate, (b,)),
            forall|b: u8, r: bool| call_ensures(terminate, (b,), r) ==> r == stop(b),
        ensures
            final(self).wf(),
            final(self)@ == old(self)@.until(stop),
            widen_offset(r) == offset_of(final(self)@.lookahead),
    {
        self.read_to(terminate, true, Ghost(stop))
    }

    /// Reads on until `test` says `wanted` of the lookahead. Returns the
    /// offset of the byte that it stopped at, if there is one.
    fn read_to<F: Fn(u8) -> bool>(
        &mut self,
        test: F,
        wanted: bool,
        Ghost(stop): Ghost<spec_fn(u8) -> bool>,
    ) -> (r: Option<usize>)
        requires
            old(self).wf(),
            forall|b: u8| call_requires(test, (b,)),
            forall|b: u8, r: bool| call_ensures(test, (b,), r) ==> (r == wanted) == stop(b),
        ensures
            final(self).wf(),
            final(self)@ == old(self)@.until(stop),
            widen_offset(r) == offset_of(final(self)@.lookahead),
    {
        loop
            invariant
                self.wf(),
                self@.until(stop) == old(self)@.until(stop),
                forall|b: u8| call_requires(test, (b,)),
                forall|b: u8, r: bool| call_ensures(test, (b,), r) ==> (r == wanted) == stop(b),
            decreases
                self@.bytes.len() - self@.cursor + if self@.lookahead is Some { 1int } else { 0int },
        {
            match self.lookahead {
                None => {
                    return None;
                },
                Some((idx0, b)) => {
                    if test(b) == wanted {
                        return Some(idx0);
                    } else {
                        self.advance();
                    }
                },
            }
        }
    }

    /// Reads on until `terminate` holds of the lookahead, and then past that
    /// byte. Returns the offset of the byte behind it, if there is one.
    fn take_until_and_consume<F: Fn(u8) -> bool>(
        &mut self,
        terminate: F,
        Ghost(stop): Ghost<spec_fn(u8) -> bool>,
    ) -> (r: Option<usize>)
        requires
            old(self).wf(),
            forall|b: u8| call_requires(terminate, (b,)),
            forall|b: u8, r: bool| call_ensures(terminate, (b,), r) ==> r == stop(b),
        ensures
            final(self).wf(),
            final(self)@ == old(self)@.past(stop),
            widen_offset(r) == offset_of(final(self)@.lookahead),
    {
        match self.take_until(terminate, Ghost(stop)) {
            Some(_) => match self.advance() {
                Some(p) => Some(p.0),
                None => None,
            },
            None => None,
        }
    }

    /// Reads a word to its end. Returns `idx0`, the text from `idx0` up to
    /// the end of the word, and the offset of that end.
    fn word(&mut self, idx0: usize) -> (r: (usize, String, usize))
        requires
            old(self).wf(),
        ensures
            final(self).wf(),
            final(self)@ == old(self)@.until(word_break()),
            r.0 == idx0,
            r.1@ == text_of(old(self)@.bytes, idx0 as int, r.2 as int),
            r.2 == final(self)@.position(),
    {
        match self.take_while(is_ident_continue, Ghost(word_break())) {
            Some(idx1) => (idx0, self.buffer.slice_string(idx0, idx1), idx1),
            None => (idx0, self.buffer.slice_string(idx0, self.buffer.len()), self.buffer.len()),
        }
    }

    /// Reads the word that the lookahead begins, which was read at offset
    /// `idx0`, and makes a reserved word or an identifier of it.
    fn ident(&mut self, idx0: usize) -> (r: Spanned<Token, usize, LexerError>)
        requires
            old(self).wf(),
            old(self)@.lookahead matches Some((_, b)) && spec_is_ident_start(b),
        ensures
            final(self).wf(),
            final(self)@ == word(old(self)@, idx0 as int, old(self)@.cursor).state,
            outcome_of(Some(r)) == word(old(self)@, idx0 as int, old(self)@.cursor).outcome,
    {
        proof {
            lemma_first_where(self@.bytes, self@.cursor, word_break());
        }
        let (start, word, end) = self.word(idx0);
        match keyword(word.as_str()) {
            Some(token) => {
                if matches!(token, Token::Actions) {
                    self.mode = TokenizerMode::Action;
                }
                Ok((start, token, end))
            },
            None => Ok((start, Token::Ident(word), end)),
        }
    }

    /// Reads a string literal to its end. The opening quote `delim` was read
    /// at offset `idx0`, and the lookahead is the first byte behind it.
    fn string_literal(&mut self, idx0: usize, delim: u8) -> (r: Spanned<Token, usize, LexerError>)
        requires
            old(self).wf(),
            old(self)@.in_step(),
            idx0 < old(self)@.bytes.len(),
        ensures
            final(self).wf(),
            final(self)@ == literal(old(self)@, idx0 as int, delim, old(self)@.position()).state,
            outcome_of(Some(r)) == literal(
                old(self)@,
                idx0 as int,
                delim,
                old(self)@.position(),
            ).outcome,
    {
        let ghost from = self@.position();
        let ghost bytes = self@.bytes;
        let mut escape = false;
        let mut found: Option<usize> = None;
        loop
            invariant_except_break
                found is None,
            invariant
                self.wf(),
                self@ == old(self)@.at(self@.position()),
                self@.bytes == bytes,
                from <= self@.position() <= bytes.len(),
                escape == escaped(bytes, from, self@.position()),
                first_closing(bytes, from, delim, self@.position()) == literal_close(
                    bytes,
                    from,
                    delim,
                ),
            ensures
                match found {
                    Some(idx1) => idx1 == literal_close(bytes, from, delim) && idx1 < bytes.len()
                        && self@ == old(self)@.at(idx1 as int),
                    None => literal_close(bytes, from, delim) == bytes.len() && self@ == old(
                        self,
                    )@.at(bytes.len() as int),
                },
            decreases bytes.len() - self@.position(),
        {
            match self.lookahead {
                None => {
                    break ;
                },
                Some((idx1, b)) => {
                    if escape {
                        escape = false;
                    } else if b == BACKSLASH {
                        escape = true;
                    } else if b == delim {
                        found = Some(idx1);
                        break ;
                    }
                    self.advance();
                },
            }
        }
        proof {
            self.buffer.lemma_len_fits();
        }
        match found {
            Some(idx1) => {
                self.advance();
                let s = self.buffer.slice_string(idx0 + 1, idx1);
                Ok((idx0, Token::StringLiteral(s), idx1 + 1))
            },
            None => LexerError::create(LexerErrorCode::UnterminatedStringLiteral, idx0),
        }
    }

    /// Makes the token `token` of the lookahead, which was read at offset
    /// `idx0`, and reads the next byte.
    fn one_byte(&mut self, idx0: usize, token: Token) -> (r: Spanned<Token, usize, LexerError>)
        requires
            old(self).wf(),
            idx0 < old(self)@.bytes.len(),
            token@ == Lexeme::Fixed(token),
        ensures
            final(self).wf(),
            final(self)@ == one_byte(old(self)@, idx0 as int, token).state,
            outcome_of(Some(r)) == one_byte(old(self)@, idx0 as int, token).outcome,
    {
        proof {
            self.buffer.lemma_len_fits();
        }
        self.advance();
        Ok((idx0, token, idx0 + 1))
    }

    /// Makes a token of the lookahead, which was read at offset `idx0`, and
    /// of the byte behind it if that is `second`.
    fn two_bytes(&mut self, idx0: usize, second: u8, two: Token, one: Option<Token>) -> (r: Spanned<
        Token,
        usize,
        LexerError,
    >)
        requires
            old(self).wf(),
            idx0 < old(self)@.bytes.len(),
            two@ == Lexeme::Fixed(two),
            one matches Some(t) ==> t@ == Lexeme::Fixed(t),
        ensures
            final(self).wf(),
            final(self)@ == two_bytes(old(self)@, idx0 as int, second, two, one).state,
            outcome_of(Some(r)) == two_bytes(old(self)@, idx0 as int, second, two, one).outcome,
    {
        proof {
            self.buffer.lemma_len_fits();
        }
        let read = self.advance();
        let idx1 = match read {
            Some((idx1, b)) => if b == second {
                Some(idx1)
            } else {
                None
            },
            None => None,
        };
        match idx1 {
            Some(idx1) => {
                self.advance();
                Ok((idx0, two, idx1 + 1))
            },
            None => match one {
                Some(token) => Ok((idx0, token, idx0 + 1)),
                None => LexerError::create(LexerErrorCode::UnexpectedToken, idx0),
            },
        }
    }

    /// The token that the lookahead `b` begins in normal mode; `b` was read at
    /// offset `idx0` and is neither white space nor `#`.
    fn normal_token(&mut self, idx0: usize, b: u8) -> (r: Spanned<Token, usize, LexerError>)
        requires
            old(self).wf(),
            old(self)@.lookahead == Some((idx0 as int, b)),
        ensures
            final(self).wf(),
            final(self)@ == normal_token(old(self)@, idx0 as int, b).state,
            outcome_of(Some(r)) == normal_token(old(self)@, idx0 as int, b).outcome,
    {
        if let Some(token) = single_token(b) {
            self.one_byte(idx0, token)
        } else if let Some((second, two, one)) = paired_tokens(b) {
            self.two_bytes(idx0, second, two, one)
        } else if is_quote(b) {
            self.advance();
            self.string_literal(idx0, b)
        } else if is_ident_start(b) {
            self.ident(idx0)
        } else {
            LexerError::create(LexerErrorCode::UnrecognizedToken, idx0)
        }
    }

    /// The next token in normal mode: white space and comments are passed
    /// over, and the first byte behind them begins the token.
    fn normal_scanner(&mut self) -> (r: Option<Spanned<Token, usize, LexerError>>)
        requires
            old(self).wf(),
        ensures
            final(self).wf(),
            final(self)@ == normal_step(old(self)@).state,
            outcome_of(r) == normal_step(old(self)@).outcome,
    {
        loop
            invariant
                self.wf(),
                normal_step(self@) == normal_step(old(self)@),
            decreases
                self@.bytes.len() - self@.cursor + if self@.lookahead is Some { 1int } else { 0int },
        {
            proof {
                lemma_first_where(self@.bytes, self@.cursor, newline());
                lemma_normal_step_at(self@, self@.cursor);
                lemma_normal_step_at(self@, line_end(self@.bytes, self@.cursor));
            }
            match self.lookahead {
                None => {
                    return None;
                },
                Some((idx0, b)) => {
                    if b == HASH {
                        let line_feed = |b: u8| -> (r: bool)
                            ensures
                                r == (b == NEWLINE),
                            { b == NEWLINE };
                        self.take_until_and_consume(line_feed, Ghost(newline()));
                    } else if is_whitespace(b) {
                        self.advance();
                    } else {
                        return Some(self.normal_token(idx0, b));
                    }
                },
            }
        }
    }

    /// Reads the body of an action block, which starts with the lookahead,
    /// read at offset `idx0`. The byte `start` opens a nested block and the
    /// byte `end` closes one.
    fn action(&mut self, idx0: usize, start: u8, end: u8) -> (r: Spanned<Token, usize, LexerError>)
        requires
            old(self).wf(),
            old(self)@.lookahead is Some,
        ensures
            final(self).wf(),
            final(self)@ == capture(old(self)@, idx0 as int, 1, start, end).state,
            outcome_of(Some(r)) == capture(old(self)@, idx0 as int, 1, start, end).outcome,
    {
        let mut balance: u128 = 1;
        proof {
            self.buffer.lemma_len_fits();
        }
        loop
            invariant
                self.wf(),
                self@.bytes.len() <= usize::MAX,
                self@.lookahead is None ==> self@.cursor == self@.bytes.len(),
                1 <= balance,
                balance + (self@.bytes.len() - self@.cursor) + if self@.lookahead is Some {
                    1int
                } else {
                    0int
                } <= self@.bytes.len() + 2,
                capture(self@, idx0 as int, balance as int, start, end) == capture(
                    old(self)@,
                    idx0 as int,
                    1,
                    start,
                    end,
                ),
            decreases
                self@.bytes.len() - self@.cursor + if self@.lookahead is Some { 1int } else { 0int },
        {
            match self.lookahead {
                None => {
                    // The input has ended. A body with a brace still open is
                    // unterminated; one with none open reaches to the end.
                    if balance > 0 {
                        return LexerError::create(LexerErrorCode::UnterminatedCodeBlock, idx0);
                    } else {
                        self.mode = TokenizerMode::Normal;
                        let len = self.buffer.len();
                        return Ok((idx0, Token::ActionString(self.buffer.slice_string(idx0, len)), len));
                    }
                },
                Some((idx, b)) => {
                    if is_quote(b) {
                        proof {
                            lemma_first_closing(self@.bytes, self@.cursor, b, self@.cursor);
                        }
                        self.advance();
                        match self.string_literal(idx, b) {
                            Ok(_) => {},
                            Err(e) => {
                                return Err(e);
                            },
                        }
                    } else if b == start {
                        balance += 1;
                        self.advance();
                    } else if b == end {
                        balance -= 1;
                        if balance == 0 {
                            self.mode = TokenizerMode::Normal;
                            return Ok(
                                (idx0, Token::ActionString(self.buffer.slice_string(idx0, idx)), idx),
                            );
                        }
                        self.advance();
                    } else {
                        self.advance();
                    }
                },
            }
        }
    }

    /// The next token in action mode.
    fn action_scanner(&mut self) -> (r: Option<Spanned<Token, usize, LexerError>>)
        requires
            old(self).wf(),
        ensures
            final(self).wf(),
            final(self)@ == action_step(old(self)@).state,
            outcome_of(r) == action_step(old(self)@).outcome,
    {
        match self.lookahead {
            Some((idx0, b)) => {
                if b == LEFT_CURLY {
                    Some(self.one_byte(idx0, Token::LeftBracket))
                } else if b == RIGHT_CURLY {
                    Some(self.one_byte(idx0, Token::RightBracket))
                } else {
                    Some(self.action(idx0, LEFT_CURLY, RIGHT_CURLY))
                }
            },
            None => Some(LexerError::create(LexerErrorCode::UnrecognizedToken, self.buffer.index())),
        }
    }

    /// The next token, a failure, or `None` at the end of the input. A
    /// failure leaves the decision to go on to the caller.
    pub fn next(&mut self) -> (r: Option<Spanned<Token, usize, LexerError>>)
        requires
            old(self).wf(),
        ensures
            final(self).wf(),
            final(self)@ == step(old(self)@).state,
            outcome_of(r) == step(old(self)@).outcome,
    {
        match self.mode {
            TokenizerMode::Action => self.action_scanner(),
            TokenizerMode::Normal => self.normal_scanner(),
        }
    }
}

} // verus!
