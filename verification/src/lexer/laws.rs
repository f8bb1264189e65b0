//! What holds of every input: the searches find what they are named after,
//! the end is reported when nothing but blanks is left and only then, a token
//! says what the bytes of its span say, and new bytes leave what was read
//! where it was.

use vstd::prelude::*;
use vstd::utf8::{
    decode_utf8_encode_utf8, encode_utf8, encode_utf8_decode_utf8, encode_utf8_valid_utf8,
    is_ascii_chars, is_ascii_chars_encode_utf8, valid_utf8,
};
use crate::lexer::buffer::slice_of;
use crate::lexer::error::LexerErrorCode;
use crate::lexer::grammar::{
    body, body_byte, closes, first_where, lemma_first_closing, lemma_first_where,
    lemma_normal_step_at, line_end, literal_close, newline, normal_at, normal_token, reading,
    skip_blanks, step, word, word_break, Outcome, State, TokenizerMode,
};
use crate::lexer::helpers::{
    spec_is_ident_continue, spec_is_ident_start, spec_is_quote, spec_is_whitespace, HASH,
    LEFT_CURLY, NEWLINE, RIGHT_CURLY,
};
use crate::lexer::text::text;
use crate::lexer::token::{keyword_of, paired, single, spelling, Lexeme, Token};

verus! {

/// `literal_close` finds the first delimiter that is not escaped: the byte it
/// points at closes the literal, if it points at one, and no byte of the
/// text before it does.
pub proof fn lemma_literal_close(bytes: Seq<u8>, from: int, delim: u8)
    requires
        0 <= from <= bytes.len(),
    ensures
        from <= literal_close(bytes, from, delim) <= bytes.len(),
        literal_close(bytes, from, delim) < bytes.len() ==> closes(
            bytes,
            from,
            delim,
            literal_close(bytes, from, delim),
        ),
        forall|k: int|
            from <= k < literal_close(bytes, from, delim) ==> !#[trigger] closes(
                bytes,
                from,
                delim,
                k,
            ),
{
    lemma_first_closing(bytes, from, delim, from);
}

/// Offset `at` lies in a comment that starts at offset `from` or later: there
/// is a `#` at or before it with no line feed between them.
pub open spec fn in_comment(bytes: Seq<u8>, from: int, at: int) -> bool {
    exists|h: int| #[trigger] comment_from(bytes, h, at) && from <= h
}

/// A comment that starts at offset `h` reaches offset `at`.
pub open spec fn comment_from(bytes: Seq<u8>, h: int, at: int) -> bool {
    &&& 0 <= h <= at < bytes.len()
    &&& bytes[h] == HASH
    &&& forall|k: int| h <= k < at ==> #[trigger] bytes[k] != NEWLINE
}

/// The byte at offset `at` is blank for a tokenizer that reads from offset
/// `from` on: it is white space or part of a comment.
pub open spec fn blank(bytes: Seq<u8>, from: int, at: int) -> bool {
    spec_is_whitespace(bytes[at]) || in_comment(bytes, from, at)
}

/// A comment that starts at `h` reaches every offset up to the end of its
/// line.
proof fn lemma_comment_reaches(bytes: Seq<u8>, h: int, at: int)
    requires
        0 <= h <= at < bytes.len(),
        bytes[h] == HASH,
        at < line_end(bytes, h + 1),
    ensures
        comment_from(bytes, h, at),
{
    lemma_first_where(bytes, h + 1, newline());
    let nl = first_where(bytes, h + 1, newline());
    assert forall|k: int| h <= k < at implies #[trigger] bytes[k] != NEWLINE by {
        if k > h {
            assert(!newline()(bytes[k]));
        }
    }
}

/// `skip_blanks` stops at a byte that is not blank, and passes over blank
/// bytes only.
pub proof fn lemma_skip_blanks(bytes: Seq<u8>, from: int)
    requires
        0 <= from <= bytes.len(),
    ensures
        from <= skip_blanks(bytes, from) <= bytes.len(),
        skip_blanks(bytes, from) < bytes.len() ==> !blank(
            bytes,
            from,
            skip_blanks(bytes, from),
        ),
        forall|k: int| from <= k < skip_blanks(bytes, from) ==> #[trigger] blank(bytes, from, k),
{
    lemma_skipped_are_blank(bytes, from, from);
    lemma_stop_is_significant(bytes, from);
    let q = skip_blanks(bytes, from);
    if q < bytes.len() {
        if in_comment(bytes, from, q) {
            let h = choose|h: int| #[trigger] comment_from(bytes, h, q) && from <= h;
            lemma_no_stop_in_comment(bytes, from, h, q);
        }
    }
}

/// The byte that `skip_blanks` stops at is neither white space nor `#`.
proof fn lemma_stop_is_significant(bytes: Seq<u8>, from: int)
    requires
        0 <= from <= bytes.len(),
    ensures
        from <= skip_blanks(bytes, from) <= bytes.len(),
        skip_blanks(bytes, from) < bytes.len() ==> !spec_is_whitespace(
            bytes[skip_blanks(bytes, from)],
        ) && bytes[skip_blanks(bytes, from)] != HASH,
    decreases bytes.len() - from,
{
    if from < bytes.len() {
        if bytes[from] == HASH {
            lemma_first_where(bytes, from + 1, newline());
            lemma_stop_is_significant(bytes, line_end(bytes, from + 1));
        } else if spec_is_whitespace(bytes[from]) {
            lemma_stop_is_significant(bytes, from + 1);
        }
    }
}

/// Reading on from `at`, with everything from `from` on blank so far,
/// `skip_blanks` passes over blank bytes only.
proof fn lemma_skipped_are_blank(bytes: Seq<u8>, from: int, at: int)
    requires
        0 <= from <= at <= bytes.len(),
    ensures
        forall|k: int| at <= k < skip_blanks(bytes, at) ==> #[trigger] blank(bytes, from, k),
    decreases bytes.len() - at,
{
    if at < bytes.len() {
        if bytes[at] == HASH {
            lemma_first_where(bytes, at + 1, newline());
            let next = line_end(bytes, at + 1);
            lemma_skipped_are_blank(bytes, from, next);
            assert forall|k: int| at <= k < skip_blanks(bytes, at) implies #[trigger] blank(
                bytes,
                from,
                k,
            ) by {
                if k < next {
                    lemma_comment_reaches(bytes, at, k);
                }
            }
        } else if spec_is_whitespace(bytes[at]) {
            lemma_skipped_are_blank(bytes, from, at + 1);
        }
    }
}

/// `skip_blanks` does not stop inside a comment: if a comment that starts at
/// `h`, at or behind the offset `at` that is read from, reaches offset `q`,
/// then `skip_blanks` does not stop at `q`.
proof fn lemma_no_stop_in_comment(bytes: Seq<u8>, at: int, h: int, q: int)
    requires
        0 <= at <= h,
        comment_from(bytes, h, q),
    ensures
        skip_blanks(bytes, at) != q || bytes[q] == HASH,
    decreases bytes.len() - at,
{
    if at < bytes.len() {
        if bytes[at] == HASH {
            lemma_first_where(bytes, at + 1, newline());
            let nl = first_where(bytes, at + 1, newline());
            let next = line_end(bytes, at + 1);
            if nl < h {
                lemma_no_stop_in_comment(bytes, next, h, q);
            } else {
                // The comment that starts at `at` reaches `q` as well.
                if nl < bytes.len() {
                    assert(newline()(bytes[nl]));
                }
                assert(q <= nl);
                lemma_stop_is_significant(bytes, next);
            }
        } else if spec_is_whitespace(bytes[at]) {
            lemma_no_stop_in_comment(bytes, at + 1, h, q);
        }
    }
}

/// A tokenizer that reads from offset `from` on finds no token exactly when
/// every byte from there on is blank.
pub proof fn lemma_nothing_left(bytes: Seq<u8>, from: int)
    requires
        0 <= from <= bytes.len(),
    ensures
        skip_blanks(bytes, from) == bytes.len() <==> forall|k: int|
            from <= k < bytes.len() ==> #[trigger] blank(bytes, from, k),
{
    lemma_skip_blanks(bytes, from);
}

/// The characters that ASCII bytes stand for, one for each byte.
pub open spec fn ascii_text(bytes: Seq<u8>) -> Seq<char> {
    Seq::new(bytes.len(), |i: int| bytes[i] as char)
}

/// Every byte is ASCII.
pub open spec fn is_ascii(bytes: Seq<u8>) -> bool {
    forall|i: int| 0 <= i < bytes.len() ==> #[trigger] bytes[i] < 0x80
}

/// ASCII bytes are valid UTF-8, and their text is the bytes read as
/// characters.
pub proof fn lemma_ascii_text(bytes: Seq<u8>)
    requires
        is_ascii(bytes),
    ensures
        valid_utf8(bytes),
        text(bytes) == ascii_text(bytes),
{
    let chars = ascii_text(bytes);
    assert(is_ascii_chars(chars)) by {
        assert forall|i: int| 0 <= i < chars.len() implies '\0' <= #[trigger] chars[i]
            <= '\u{7f}' by {
            assert(bytes[i] < 0x80);
        }
    }
    is_ascii_chars_encode_utf8(chars);
    assert(encode_utf8(chars) =~= bytes) by {
        assert forall|i: int| 0 <= i < bytes.len() implies encode_utf8(chars)[i] == bytes[i] by {
            assert(bytes[i] < 0x80);
            assert(chars[i] as u8 == bytes[i]);
        }
    }
    encode_utf8_valid_utf8(chars);
    encode_utf8_decode_utf8(chars);
}

/// Text that is valid UTF-8 gives back its bytes when it is encoded.
pub proof fn lemma_text_round_trip(bytes: Seq<u8>)
    requires
        valid_utf8(bytes),
    ensures
        encode_utf8(text(bytes)) == bytes,
{
    decode_utf8_encode_utf8(bytes);
}

/// The bytes from `start` up to `end` are a word: the first may begin an
/// identifier, the others may continue one, and the byte behind them may not.
pub open spec fn is_word(bytes: Seq<u8>, start: int, end: int) -> bool {
    &&& 0 <= start < end <= bytes.len()
    &&& spec_is_ident_start(bytes[start])
    &&& forall|k: int| start <= k < end ==> spec_is_ident_continue(#[trigger] bytes[k])
    &&& end < bytes.len() ==> !spec_is_ident_continue(bytes[end])
}

/// The token that reaches from `start` up to `end` says what the bytes of
/// that span say. Punctuation is spelled by them. A reserved word or an
/// identifier is a whole word and its text is their text; an identifier is
/// no reserved word. A string literal begins with a quote and ends with the
/// first such quote that is not escaped, and its text is the text of the
/// bytes between the two. The body of an action block is the text of the
/// span.
pub open spec fn faithful(bytes: Seq<u8>, start: int, lexeme: Lexeme, end: int) -> bool {
    let raw = bytes.subrange(start, end);
    match lexeme {
        Lexeme::Fixed(t) => spelling(t) == Some(raw) || (is_word(bytes, start, end) && keyword_of(
            ascii_text(raw),
        ) == Some(t)),
        Lexeme::Ident(s) => is_word(bytes, start, end) && s == ascii_text(raw) && keyword_of(s)
            is None,
        Lexeme::StringLiteral(s) => {
            &&& start + 2 <= end
            &&& spec_is_quote(bytes[start])
            &&& literal_close(bytes, start + 1, bytes[start]) == end - 1
            &&& s == text(bytes.subrange(start + 1, end - 1))
        },
        Lexeme::ActionString(s) => s == text(raw),
    }
}

/// A literal opens at offset `at` and nothing closes it.
pub open spec fn unclosed(bytes: Seq<u8>, at: int) -> bool {
    &&& 0 <= at < bytes.len()
    &&& spec_is_quote(bytes[at])
    &&& literal_close(bytes, at + 1, bytes[at]) == bytes.len()
}

/// What reading the body of an action block comes to, from any offset and
/// with any number of braces open. A token carries the text from the start
/// of the body to its end and leaves the tokenizer there, in normal mode;
/// while a brace is open, it ends at the brace that closes the body and
/// never at the end of the bytes. A failure is an unterminated body,
/// reported at its start, or an unterminated literal, reported at its quote;
/// it leaves the tokenizer at the end of the bytes.
pub proof fn lemma_body(
    bytes: Seq<u8>,
    mode: TokenizerMode,
    start: int,
    at: int,
    depth: int,
    open: u8,
    close: u8,
)
    requires
        0 <= start <= at <= bytes.len(),
    ensures
        match body(bytes, mode, start, at, depth, open, close).outcome {
            Outcome::Token { start: s, lexeme, end } => {
                &&& s == start
                &&& at <= end <= bytes.len()
                &&& lexeme == Lexeme::ActionString(text(bytes.subrange(start, end)))
                &&& body(bytes, mode, start, at, depth, open, close).state == reading(
                    bytes,
                    TokenizerMode::Normal,
                    end,
                )
                &&& depth >= 1 ==> end < bytes.len() && bytes[end] == close
            },
            Outcome::Error { code, location } => {
                &&& body(bytes, mode, start, at, depth, open, close).state == reading(
                    bytes,
                    mode,
                    bytes.len() as int,
                )
                &&& code == LexerErrorCode::UnterminatedCodeBlock && location == start || code
                    == LexerErrorCode::UnterminatedStringLiteral && at <= location < bytes.len()
                    && unclosed(bytes, location)
            },
            Outcome::End => false,
        },
    decreases bytes.len() - at,
{
    if at < bytes.len() {
        let s = reading(bytes, mode, at);
        let b = bytes[at];
        assert(body(bytes, mode, start, at, depth, open, close) == body_byte(
            s,
            start,
            at,
            b,
            depth,
            open,
            close,
        ));
        if spec_is_quote(b) {
            lemma_first_closing(bytes, at + 1, b, at + 1);
            let end = literal_close(bytes, at + 1, b);
            if end < bytes.len() {
                lemma_body(bytes, mode, start, end + 1, depth, open, close);
            }
        } else if b == open {
            lemma_body(bytes, mode, start, at + 1, depth + 1, open, close);
        } else if b == close && depth == 1 {
            assert(slice_of(bytes, start, at) == bytes.subrange(start, at));
        } else if b == close {
            lemma_body(bytes, mode, start, at + 1, depth - 1, open, close);
        } else {
            lemma_body(bytes, mode, start, at + 1, depth, open, close);
        }
    } else {
        assert(slice_of(bytes, start, bytes.len() as int) == bytes.subrange(
            start,
            bytes.len() as int,
        ));
    }
}

/// A token of one byte is spelled by that byte, and one of two bytes by the
/// two.
proof fn lemma_punctuation(b: u8)
    ensures
        single(b) matches Some(t) ==> spelling(t) == Some(seq![b]) && t != Token::Actions,
        paired(b) matches Some((second, two, one)) ==> {
            &&& spelling(two) == Some(seq![b, second])
            &&& two != Token::Actions
            &&& one matches Some(t) ==> spelling(t) == Some(seq![b]) && t != Token::Actions
        },
        single(b) is Some || paired(b) is Some ==> !spec_is_whitespace(b) && b != HASH,
{
    if let Some(t) = single(b) {
        assert(spelling(t)->0 =~= seq![b]);
    }
    if let Some((second, two, one)) = paired(b) {
        assert(spelling(two)->0 =~= seq![b, second]);
        if let Some(t) = one {
            assert(spelling(t)->0 =~= seq![b]);
        }
    }
}

/// What holds of the token that a request yields when the tokenizer reads at
/// offset `p`, and of the state that it is left in.
pub open spec fn token_law(bytes: Seq<u8>, mode: TokenizerMode, p: int) -> bool {
    let r = step(reading(bytes, mode, p));
    match r.outcome {
        Outcome::Token { start, lexeme, end } => {
            &&& start == if mode == TokenizerMode::Normal {
                skip_blanks(bytes, p)
            } else {
                p
            }
            &&& p <= start < end <= bytes.len()
            &&& faithful(bytes, start, lexeme, end)
            &&& r.state == reading(bytes, r.state.mode, end)
        },
        _ => true,
    }
}

/// A token starts where the tokenizer reads, behind the blanks in normal
/// mode; it is not empty; it says what the bytes of its span say; and it
/// leaves the tokenizer reading at its end.
pub proof fn lemma_token(bytes: Seq<u8>, mode: TokenizerMode, p: int)
    requires
        0 <= p <= bytes.len(),
    ensures
        token_law(bytes, mode, p),
{
    let s = reading(bytes, mode, p);
    match mode {
        TokenizerMode::Normal => {
            lemma_normal_step_at(s, p);
            lemma_skip_blanks(bytes, p);
            let q = skip_blanks(bytes, p);
            if q < bytes.len() {
                lemma_normal_token(bytes, mode, q);
            }
        },
        TokenizerMode::Action => {
            if p < bytes.len() {
                let b = bytes[p];
                if b == LEFT_CURLY || b == RIGHT_CURLY {
                    lemma_punctuation(b);
                    assert(bytes.subrange(p, p + 1) =~= seq![b]);
                } else {
                    lemma_body(bytes, mode, p, p, 1, LEFT_CURLY, RIGHT_CURLY);
                }
            }
        },
    }
}

/// The law of tokens for the token that begins at offset `q`.
proof fn lemma_normal_token(bytes: Seq<u8>, mode: TokenizerMode, q: int)
    requires
        0 <= q < bytes.len(),
    ensures
        match normal_token(reading(bytes, mode, q), q, bytes[q]).outcome {
            Outcome::Token { start, lexeme, end } => {
                &&& start == q
                &&& q < end <= bytes.len()
                &&& faithful(bytes, start, lexeme, end)
                &&& normal_token(reading(bytes, mode, q), q, bytes[q]).state == reading(
                    bytes,
                    normal_token(reading(bytes, mode, q), q, bytes[q]).state.mode,
                    end,
                )
            },
            _ => true,
        },
{
    let s = reading(bytes, mode, q);
    let b = bytes[q];
    lemma_punctuation(b);
    if let Some(t) = single(b) {
        assert(bytes.subrange(q, q + 1) =~= seq![b]);
    } else if let Some((second, two, one)) = paired(b) {
        if q + 1 < bytes.len() && bytes[q + 1] == second {
            assert(bytes.subrange(q, q + 2) =~= seq![b, second]);
        } else {
            assert(bytes.subrange(q, q + 1) =~= seq![b]);
        }
    } else if spec_is_quote(b) {
        lemma_first_closing(bytes, q + 1, b, q + 1);
        let close = literal_close(bytes, q + 1, b);
        assert(slice_of(bytes, q + 1, close) == bytes.subrange(q + 1, close));
    } else if spec_is_ident_start(b) {
        lemma_word(bytes, mode, q);
    }
}

/// The law of tokens for the word that begins at offset `q`.
proof fn lemma_word(bytes: Seq<u8>, mode: TokenizerMode, q: int)
    requires
        0 <= q < bytes.len(),
        spec_is_ident_start(bytes[q]),
    ensures
        match word(reading(bytes, mode, q), q, q + 1).outcome {
            Outcome::Token { start, lexeme, end } => {
                &&& start == q
                &&& q < end <= bytes.len()
                &&& faithful(bytes, start, lexeme, end)
                &&& word(reading(bytes, mode, q), q, q + 1).state == reading(
                    bytes,
                    word(reading(bytes, mode, q), q, q + 1).state.mode,
                    end,
                )
            },
            _ => false,
        },
{
    lemma_first_where(bytes, q + 1, word_break());
    let end = first_where(bytes, q + 1, word_break());
    let raw = bytes.subrange(q, end);
    assert(slice_of(bytes, q, end) == raw);
    assert forall|k: int| q <= k < end implies spec_is_ident_continue(#[trigger] bytes[k]) by {
        if k > q {
            assert(!word_break()(bytes[k]));
        }
    }
    if end < bytes.len() {
        assert(word_break()(bytes[end]));
    }
    assert(is_word(bytes, q, end));
    assert(is_ascii(raw)) by {
        assert forall|i: int| 0 <= i < raw.len() implies #[trigger] raw[i] < 0x80 by {
            assert(spec_is_ident_continue(bytes[q + i]));
        }
    }
    lemma_ascii_text(raw);
}

/// The end is reported in normal mode only, and there exactly when every
/// byte from the offset that the tokenizer reads at is blank: no token is
/// made of blanks, and nothing but blanks is passed over. The tokenizer is
/// then at the end of the bytes.
pub proof fn lemma_end(bytes: Seq<u8>, mode: TokenizerMode, p: int)
    requires
        0 <= p <= bytes.len(),
    ensures
        step(reading(bytes, mode, p)).outcome is End <==> mode == TokenizerMode::Normal && forall|
            k: int,
        |
            p <= k < bytes.len() ==> #[trigger] blank(bytes, p, k),
        step(reading(bytes, mode, p)).outcome is End ==> step(reading(bytes, mode, p)).state
            == reading(bytes, mode, bytes.len() as int),
{
    let s = reading(bytes, mode, p);
    match mode {
        TokenizerMode::Normal => {
            lemma_normal_step_at(s, p);
            lemma_nothing_left(bytes, p);
            lemma_skip_blanks(bytes, p);
            let q = skip_blanks(bytes, p);
            if q < bytes.len() {
                lemma_normal_token(bytes, mode, q);
                lemma_normal_failure(bytes, mode, q);
            }
        },
        TokenizerMode::Action => {
            if p < bytes.len() {
                lemma_body(bytes, mode, p, p, 1, LEFT_CURLY, RIGHT_CURLY);
            }
        },
    }
}

/// What holds of the failure that a request yields when the tokenizer reads
/// at offset `p`, and of the state that it is left in. A byte that needs `=`
/// behind it and has none is unexpected; the tokenizer has read past it. A
/// byte that begins no token is unrecognized, and so is the end of the bytes
/// in action mode; the tokenizer stays where it is. A body that is not closed
/// is reported where it starts, and a literal that is not closed at its
/// quote; the tokenizer is then at the end of the bytes.
pub open spec fn failure_law(bytes: Seq<u8>, mode: TokenizerMode, p: int) -> bool {
    let r = step(reading(bytes, mode, p));
    let q = if mode == TokenizerMode::Normal {
        skip_blanks(bytes, p)
    } else {
        p
    };
    match r.outcome {
        Outcome::Error { code, location } => {
            &&& r.state.mode == mode
            &&& match code {
                LexerErrorCode::UnexpectedToken => {
                    &&& mode == TokenizerMode::Normal
                    &&& location == q < bytes.len()
                    &&& paired(bytes[q]) matches Some((second, _, one)) && one is None && !(q + 1
                        < bytes.len() && bytes[q + 1] == second)
                    &&& r.state == reading(bytes, mode, q + 1)
                },
                LexerErrorCode::UnrecognizedToken => {
                    &&& location == q
                    &&& r.state == reading(bytes, mode, q)
                    &&& if mode == TokenizerMode::Normal {
                        q < bytes.len() && begins_nothing(bytes[q])
                    } else {
                        q == bytes.len()
                    }
                },
                LexerErrorCode::UnterminatedCodeBlock => {
                    &&& mode == TokenizerMode::Action
                    &&& location == q < bytes.len()
                    &&& r.state == reading(bytes, mode, bytes.len() as int)
                },
                LexerErrorCode::UnterminatedStringLiteral => {
                    &&& q <= location
                    &&& mode == TokenizerMode::Normal ==> location == q
                    &&& unclosed(bytes, location)
                    &&& r.state == reading(bytes, mode, bytes.len() as int)
                },
            }
        },
        _ => true,
    }
}

/// The byte `b` begins no token and is no blank.
pub open spec fn begins_nothing(b: u8) -> bool {
    &&& single(b) is None
    &&& paired(b) is None
    &&& !spec_is_quote(b)
    &&& !spec_is_ident_start(b)
    &&& !spec_is_whitespace(b)
    &&& b != HASH
}

/// Every failure is reported at the offset that its kind names, and leaves
/// the tokenizer where that kind says.
pub proof fn lemma_failure(bytes: Seq<u8>, mode: TokenizerMode, p: int)
    requires
        0 <= p <= bytes.len(),
    ensures
        failure_law(bytes, mode, p),
{
    let s = reading(bytes, mode, p);
    match mode {
        TokenizerMode::Normal => {
            lemma_normal_step_at(s, p);
            lemma_skip_blanks(bytes, p);
            let q = skip_blanks(bytes, p);
            if q < bytes.len() {
                lemma_normal_failure(bytes, mode, q);
                lemma_stop_is_significant(bytes, p);
            }
        },
        TokenizerMode::Action => {
            if p < bytes.len() {
                let b = bytes[p];
                if b == LEFT_CURLY || b == RIGHT_CURLY {
                } else {
                    lemma_body(bytes, mode, p, p, 1, LEFT_CURLY, RIGHT_CURLY);
                }
            }
        },
    }
}

/// The law of failures for the token that begins at offset `q`.
proof fn lemma_normal_failure(bytes: Seq<u8>, mode: TokenizerMode, q: int)
    requires
        0 <= q < bytes.len(),
    ensures
        match normal_token(reading(bytes, mode, q), q, bytes[q]).outcome {
            Outcome::Error { code, location } => {
                &&& location == q
                &&& match code {
                    LexerErrorCode::UnexpectedToken => {
                        &&& paired(bytes[q]) matches Some((second, _, one)) && one is None && !(q
                            + 1 < bytes.len() && bytes[q + 1] == second)
                        &&& normal_token(reading(bytes, mode, q), q, bytes[q]).state == reading(
                            bytes,
                            mode,
                            q + 1,
                        )
                    },
                    LexerErrorCode::UnrecognizedToken => {
                        &&& single(bytes[q]) is None
                        &&& paired(bytes[q]) is None
                        &&& !spec_is_quote(bytes[q])
                        &&& !spec_is_ident_start(bytes[q])
                        &&& normal_token(reading(bytes, mode, q), q, bytes[q]).state == reading(
                            bytes,
                            mode,
                            q,
                        )
                    },
                    LexerErrorCode::UnterminatedCodeBlock => false,
                    LexerErrorCode::UnterminatedStringLiteral => {
                        &&& unclosed(bytes, q)
                        &&& normal_token(reading(bytes, mode, q), q, bytes[q]).state == reading(
                            bytes,
                            mode,
                            bytes.len() as int,
                        )
                    },
                }
            },
            Outcome::Token { .. } => true,
            Outcome::End => false,
        },
{
    let b = bytes[q];
    lemma_punctuation(b);
    if single(b) is Some {
    } else if paired(b) is Some {
    } else if spec_is_quote(b) {
        lemma_first_closing(bytes, q + 1, b, q + 1);
    } else if spec_is_ident_start(b) {
        lemma_word(bytes, mode, q);
    }
}

/// Reading the body of an action block never reports the end; a token is
/// the body and leaves the tokenizer in normal mode, and a failure leaves the
/// mode as it is.
proof fn lemma_body_mode(
    bytes: Seq<u8>,
    mode: TokenizerMode,
    start: int,
    at: int,
    depth: int,
    open: u8,
    close: u8,
)
    ensures
        match body(bytes, mode, start, at, depth, open, close).outcome {
            Outcome::Token { lexeme, .. } => lexeme is ActionString && body(
                bytes,
                mode,
                start,
                at,
                depth,
                open,
                close,
            ).state.mode == TokenizerMode::Normal,
            Outcome::Error { .. } => body(bytes, mode, start, at, depth, open, close).state.mode
                == mode,
            Outcome::End => false,
        },
    decreases bytes.len() - at,
{
    if 0 <= at < bytes.len() {
        let b = bytes[at];
        if spec_is_quote(b) {
            let end = literal_close(bytes, at + 1, b);
            if at + 1 <= end < bytes.len() {
                lemma_body_mode(bytes, mode, start, end + 1, depth, open, close);
            }
        } else if b == open {
            lemma_body_mode(bytes, mode, start, at + 1, depth + 1, open, close);
        } else if b == close && depth == 1 {
        } else if b == close {
            lemma_body_mode(bytes, mode, start, at + 1, depth - 1, open, close);
        } else {
            lemma_body_mode(bytes, mode, start, at + 1, depth, open, close);
        }
    }
}

/// The outcome is the reserved word `actions`.
pub open spec fn is_actions(outcome: Outcome) -> bool {
    match outcome {
        Outcome::Token { lexeme, .. } => lexeme == Lexeme::Fixed(Token::Actions),
        _ => false,
    }
}

/// The outcome is the body of an action block.
pub open spec fn is_body(outcome: Outcome) -> bool {
    match outcome {
        Outcome::Token { lexeme, .. } => lexeme is ActionString,
        _ => false,
    }
}

/// How a request changes the mode, in any state. In normal mode the
/// tokenizer goes over to action mode with the reserved word `actions` and
/// with nothing else. In action mode it goes back to normal mode with the
/// body of an action block and with nothing else.
pub open spec fn mode_law(s: State) -> bool {
    let r = step(s);
    match s.mode {
        TokenizerMode::Normal => r.state.mode == TokenizerMode::Action <==> is_actions(r.outcome),
        TokenizerMode::Action => r.state.mode == TokenizerMode::Normal <==> is_body(r.outcome),
    }
}

/// The mode changes with the reserved word `actions` and with the end of a
/// body, and with nothing else.
pub proof fn lemma_mode(s: State)
    ensures
        mode_law(s),
{
    match s.mode {
        TokenizerMode::Normal => {
            match s.lookahead {
                None => {},
                Some((i, b)) => {
                    if b == HASH {
                        lemma_mode_at(s, line_end(s.bytes, s.cursor));
                    } else if spec_is_whitespace(b) {
                        lemma_mode_at(s, s.cursor);
                    } else {
                        lemma_mode_token(s, i, b);
                    }
                },
            }
        },
        TokenizerMode::Action => {
            match s.lookahead {
                None => {},
                Some((i, b)) => {
                    if b == LEFT_CURLY || b == RIGHT_CURLY {
                    } else {
                        lemma_mode_byte(s, i, i, b, 1, LEFT_CURLY, RIGHT_CURLY);
                    }
                },
            }
        },
    }
}

proof fn lemma_mode_byte(s: State, start: int, at: int, b: u8, depth: int, open: u8, close: u8)
    ensures
        match body_byte(s, start, at, b, depth, open, close).outcome {
            Outcome::Token { lexeme, .. } => lexeme is ActionString && body_byte(
                s,
                start,
                at,
                b,
                depth,
                open,
                close,
            ).state.mode == TokenizerMode::Normal,
            Outcome::Error { .. } => body_byte(s, start, at, b, depth, open, close).state.mode
                == s.mode,
            Outcome::End => false,
        },
{
    if spec_is_quote(b) {
        let end = literal_close(s.bytes, s.cursor, b);
        lemma_body_mode(s.bytes, s.mode, start, end + 1, depth, open, close);
    } else if b == open {
        lemma_body_mode(s.bytes, s.mode, start, s.cursor, depth + 1, open, close);
    } else if b == close && depth == 1 {
    } else if b == close {
        lemma_body_mode(s.bytes, s.mode, start, s.cursor, depth - 1, open, close);
    } else {
        lemma_body_mode(s.bytes, s.mode, start, s.cursor, depth, open, close);
    }
}

proof fn lemma_mode_token(s: State, start: int, b: u8)
    requires
        s.mode == TokenizerMode::Normal,
    ensures
        normal_token(s, start, b).state.mode == TokenizerMode::Action <==> is_actions(
            normal_token(s, start, b).outcome,
        ),
{
    lemma_punctuation(b);
}

proof fn lemma_mode_at(s: State, p: int)
    requires
        s.mode == TokenizerMode::Normal,
    ensures
        normal_at(s, p).state.mode == TokenizerMode::Action <==> is_actions(
            normal_at(s, p).outcome,
        ),
{
    let q = skip_blanks(s.bytes, p);
    if q < s.bytes.len() {
        lemma_mode_token(s.at(q), q, s.bytes[q]);
    }
}

/// New bytes leave what was read where it was: the bytes before the cursor
/// stay, the new bytes follow them, and the bytes that were behind the
/// cursor follow those. A tokenizer whose lookahead was the byte before the
/// cursor still reads at the same offset.
pub proof fn lemma_data(s: State, data: Seq<u8>)
    requires
        s.wf(),
    ensures
        s.with_data(data).wf(),
        s.with_data(data).mode == s.mode,
        s.with_data(data).bytes.len() == s.bytes.len() + data.len(),
        forall|k: int| 0 <= k < s.cursor ==> s.with_data(data).bytes[k] == s.bytes[k],
        forall|k: int| 0 <= k < data.len() ==> s.with_data(data).bytes[s.cursor + k] == data[k],
        forall|k: int|
            s.cursor <= k < s.bytes.len() ==> s.with_data(data).bytes[k + data.len()] == s.bytes[k],
        s.in_step() ==> s.with_data(data).in_step() && s.with_data(data).position()
            == s.position(),
{
}

/// A request leaves a tokenizer whose lookahead was the byte before the
/// cursor in such a state again, and not before the offset that it read at;
/// behind a token the tokenizer reads further on than before it.
pub proof fn lemma_progress(bytes: Seq<u8>, mode: TokenizerMode, p: int)
    requires
        0 <= p <= bytes.len(),
    ensures
        step(reading(bytes, mode, p)).state.bytes == bytes,
        step(reading(bytes, mode, p)).state.wf(),
        step(reading(bytes, mode, p)).state.in_step(),
        p <= step(reading(bytes, mode, p)).state.position(),
        step(reading(bytes, mode, p)).outcome is Token ==> p < step(
            reading(bytes, mode, p),
        ).state.position(),
{
    lemma_token(bytes, mode, p);
    lemma_failure(bytes, mode, p);
    lemma_end(bytes, mode, p);
    lemma_skip_blanks(bytes, p);
}

/// A tokenizer whose lookahead is the byte before its cursor is in the state
/// `reading` of the offset that it reads at. Every read brings a tokenizer
/// into such a state, wherever its cursor was moved before.
pub proof fn lemma_in_step(s: State)
    requires
        s.wf(),
    ensures
        s.advance().wf(),
        s.advance().in_step(),
        s.in_step() ==> 0 <= s.position() <= s.bytes.len() && s == reading(
            s.bytes,
            s.mode,
            s.position(),
        ),
{
}

} // verus!
