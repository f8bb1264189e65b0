//! The tokens of the language.

use vstd::prelude::*;
use crate::lexer::helpers::{
    AMPER, BANG, BAR, COLON, EQUALS, LEFT_ANGLE, LEFT_CURLY, LEFT_PAREN, LEFT_SQUARE, PLUS,
    QUESTION, RIGHT_ANGLE, RIGHT_CURLY, RIGHT_PAREN, RIGHT_SQUARE, SEMICOLON,
};
use crate::lexer::text::str_eq;

verus! {

/// A token: punctuation, a reserved word, or one of the three kinds that carry
/// text.
#[derive(Clone, Debug, Eq, Ord, PartialEq, PartialOrd)]
pub enum Token {
    Bang,
    BangEquals,
    Amper,
    AmperAmper,
    LeftParen,
    RightParen,
    PlusEquals,
    Colon,
    SemiColon,
    LeftAngle,
    LeftAngleEquals,
    Equals,
    RightAngle,
    RightAngleEquals,
    QuestionEquals,
    LeftBracket,
    RightBracket,
    Bar,
    BarBar,
    LeftBrace,
    RightBrace,
    Actions,
    ActionString(String),
    Bind,
    Break,
    Case,
    Continue,
    Default,
    Else,
    Existing,
    For,
    Ident(String),
    If,
    Ignore,
    In,
    Include,
    Local,
    Maxline,
    On,
    Piecemeal,
    Quietly,
    Return,
    Rule,
    StringLiteral(String),
    Switch,
    Together,
    Updated,
    While,
}

/// A token, its start offset before it and its end offset behind it; or the
/// failure to make one.
pub type Spanned<Tok, Loc, Error> = Result<(Loc, Tok, Loc), Error>;

/// What a token says: a token without text stands for itself, and one with
/// text is the kind and the text.
pub enum Lexeme {
    Fixed(Token),
    Ident(Seq<char>),
    StringLiteral(Seq<char>),
    ActionString(Seq<char>),
}

impl View for Token {
    type V = Lexeme;

    open spec fn view(&self) -> Lexeme {
        match *self {
            Token::Ident(s) => Lexeme::Ident(s@),
            Token::StringLiteral(s) => Lexeme::StringLiteral(s@),
            Token::ActionString(s) => Lexeme::ActionString(s@),
            t => Lexeme::Fixed(t),
        }
    }
}

/// The token that the byte `b` is by itself, whatever follows it.
pub open spec fn single(b: u8) -> Option<Token> {
    if b == LEFT_PAREN {
        Some(Token::LeftParen)
    } else if b == RIGHT_PAREN {
        Some(Token::RightParen)
    } else if b == LEFT_CURLY {
        Some(Token::LeftBracket)
    } else if b == RIGHT_CURLY {
        Some(Token::RightBracket)
    } else if b == LEFT_SQUARE {
        Some(Token::LeftBrace)
    } else if b == RIGHT_SQUARE {
        Some(Token::RightBrace)
    } else if b == SEMICOLON {
        Some(Token::SemiColon)
    } else if b == COLON {
        Some(Token::Colon)
    } else if b == EQUALS {
        Some(Token::Equals)
    } else {
        None
    }
}

/// For a byte `b` that may begin a token of two bytes: the second byte, the
/// token that the two make, and the token that `b` is when another byte
/// follows, if it is one.
pub open spec fn paired(b: u8) -> Option<(u8, Token, Option<Token>)> {
    if b == AMPER {
        Some((AMPER, Token::AmperAmper, Some(Token::Amper)))
    } else if b == BAR {
        Some((BAR, Token::BarBar, Some(Token::Bar)))
    } else if b == BANG {
        Some((EQUALS, Token::BangEquals, Some(Token::Bang)))
    } else if b == LEFT_ANGLE {
        Some((EQUALS, Token::LeftAngleEquals, Some(Token::LeftAngle)))
    } else if b == RIGHT_ANGLE {
        Some((EQUALS, Token::RightAngleEquals, Some(Token::RightAngle)))
    } else if b == QUESTION {
        Some((EQUALS, Token::QuestionEquals, None))
    } else if b == PLUS {
        Some((EQUALS, Token::PlusEquals, None))
    } else {
        None
    }
}

/// The bytes that spell a token of punctuation.
pub open spec fn spelling(t: Token) -> Option<Seq<u8>> {
    match t {
        Token::Bang => Some(seq![BANG]),
        Token::BangEquals => Some(seq![BANG, EQUALS]),
        Token::Amper => Some(seq![AMPER]),
        Token::AmperAmper => Some(seq![AMPER, AMPER]),
        Token::LeftParen => Some(seq![LEFT_PAREN]),
        Token::RightParen => Some(seq![RIGHT_PAREN]),
        Token::PlusEquals => Some(seq![PLUS, EQUALS]),
        Token::Colon => Some(seq![COLON]),
        Token::SemiColon => Some(seq![SEMICOLON]),
        Token::LeftAngle => Some(seq![LEFT_ANGLE]),
        Token::LeftAngleEquals => Some(seq![LEFT_ANGLE, EQUALS]),
        Token::Equals => Some(seq![EQUALS]),
        Token::RightAngle => Some(seq![RIGHT_ANGLE]),
        Token::RightAngleEquals => Some(seq![RIGHT_ANGLE, EQUALS]),
        Token::QuestionEquals => Some(seq![QUESTION, EQUALS]),
        Token::LeftBracket => Some(seq![LEFT_CURLY]),
        Token::RightBracket => Some(seq![RIGHT_CURLY]),
        Token::Bar => Some(seq![BAR]),
        Token::BarBar => Some(seq![BAR, BAR]),
        Token::LeftBrace => Some(seq![LEFT_SQUARE]),
        Token::RightBrace => Some(seq![RIGHT_SQUARE]),
        _ => None,
    }
}

/// The token that the byte `b` is by itself, if it is one.
pub fn single_token(b: u8) -> (r: Option<Token>)
    ensures
        r == single(b),
        r matches Some(t) ==> t@ == Lexeme::Fixed(t),
{
    if b == LEFT_PAREN {
        Some(Token::LeftParen)
    } else if b == RIGHT_PAREN {
        Some(Token::RightParen)
    } else if b == LEFT_CURLY {
        Some(Token::LeftBracket)
    } else if b == RIGHT_CURLY {
        Some(Token::RightBracket)
    } else if b == LEFT_SQUARE {
        Some(Token::LeftBrace)
    } else if b == RIGHT_SQUARE {
        Some(Token::RightBrace)
    } else if b == SEMICOLON {
        Some(Token::SemiColon)
    } else if b == COLON {
        Some(Token::Colon)
    } else if b == EQUALS {
        Some(Token::Equals)
    } else {
        None
    }
}

/// For a byte `b` that may begin a token of two bytes: the second byte, the
/// token of the two, and the token that `b` is alone, if it is one.
pub fn paired_tokens(b: u8) -> (r: Option<(u8, Token, Option<Token>)>)
    ensures
        r == paired(b),
        r matches Some((_, two, one)) ==> two@ == Lexeme::Fixed(two) && (one matches Some(t)
            ==> t@ == Lexeme::Fixed(t)),
{
    if b == AMPER {
        Some((AMPER, Token::AmperAmper, Some(Token::Amper)))
    } else if b == BAR {
        Some((BAR, Token::BarBar, Some(Token::Bar)))
    } else if b == BANG {
        Some((EQUALS, Token::BangEquals, Some(Token::Bang)))
    } else if b == LEFT_ANGLE {
        Some((EQUALS, Token::LeftAngleEquals, Some(Token::LeftAngle)))
    } else if b == RIGHT_ANGLE {
        Some((EQUALS, Token::RightAngleEquals, Some(Token::RightAngle)))
    } else if b == QUESTION {
        Some((EQUALS, Token::QuestionEquals, None))
    } else if b == PLUS {
        Some((EQUALS, Token::PlusEquals, None))
    } else {
        None
    }
}

/// The reserved word that `text` spells, if it spells one.
pub open spec fn keyword_of(text: Seq<char>) -> Option<Token> {
    if text == "actions"@ {
        Some(Token::Actions)
    } else if text == "bind"@ {
        Some(Token::Bind)
    } else if text == "break"@ {
        Some(Token::Break)
    } else if text == "case"@ {
        Some(Token::Case)
    } else if text == "continue"@ {
        Some(Token::Continue)
    } else if text == "default"@ {
        Some(Token::Default)
    } else if text == "else"@ {
        Some(Token::Else)
    } else if text == "existing"@ {
        Some(Token::Existing)
    } else if text == "for"@ {
        Some(Token::For)
    } else if text == "if"@ {
        Some(Token::If)
    } else if text == "ignore"@ {
        Some(Token::Ignore)
    } else if text == "in"@ {
        Some(Token::In)
    } else if text == "include"@ {
        Some(Token::Include)
    } else if text == "local"@ {
        Some(Token::Local)
    } else if text == "maxline"@ {
        Some(Token::Maxline)
    } else if text == "on"@ {
        Some(Token::On)
    } else if text == "piecemeal"@ {
        Some(Token::Piecemeal)
    } else if text == "quietly"@ {
        Some(Token::Quietly)
    } else if text == "return"@ {
        Some(Token::Return)
    } else if text == "rule"@ {
        Some(Token::Rule)
    } else if text == "switch"@ {
        Some(Token::Switch)
    } else if text == "together"@ {
        Some(Token::Together)
    } else if text == "updated"@ {
        Some(Token::Updated)
    } else if text == "while"@ {
        Some(Token::While)
    } else {
        None
    }
}

/// Looks `word` up among the reserved words.
pub fn keyword(word: &str) -> (r: Option<Token>)
    ensures
        r == keyword_of(word@),
{
    if str_eq(word, "actions") {
        Some(Token::Actions)
    } else if str_eq(word, "bind") {
        Some(Token::Bind)
    } else if str_eq(word, "break") {
        Some(Token::Break)
    } else if str_eq(word, "case") {
        Some(Token::Case)
    } else if str_eq(word, "continue") {
        Some(Token::Continue)
    } else if str_eq(word, "default") {
        Some(Token::Default)
    } else if str_eq(word, "else") {
        Some(Token::Else)
    } else if str_eq(word, "existing") {
        Some(Token::Existing)
    } else if str_eq(word, "for") {
        Some(Token::For)
    } else if str_eq(word, "if") {
        Some(Token::If)
    } else if str_eq(word, "ignore") {
        Some(Token::Ignore)
    } else if str_eq(word, "in") {
        Some(Token::In)
    } else if str_eq(word, "include") {
        Some(Token::Include)
    } else if str_eq(word, "local") {
        Some(Token::Local)
    } else if str_eq(word, "maxline") {
        Some(Token::Maxline)
    } else if str_eq(word, "on") {
        Some(Token::On)
    } else if str_eq(word, "piecemeal") {
        Some(Token::Piecemeal)
    } else if str_eq(word, "quietly") {
        Some(Token::Quietly)
    } else if str_eq(word, "return") {
        Some(Token::Return)
    } else if str_eq(word, "rule") {
        Some(Token::Rule)
    } else if str_eq(word, "switch") {
        Some(Token::Switch)
    } else if str_eq(word, "together") {
        Some(Token::Together)
    } else if str_eq(word, "updated") {
        Some(Token::Updated)
    } else if str_eq(word, "while") {
        Some(Token::While)
    } else {
        None
    }
}

} // verus!
