use jam::lexer::helpers::{is_ident_continue, is_ident_start, is_not_ws, is_quote, is_whitespace};
use jam::lexer::text::{bytes_eq, str_eq};
use jam::lexer::token::{keyword, paired_tokens, single_token};
use jam::lexer::Token;

#[test]
fn white_space_is_what_the_characters_are() {
    for b in 0..=255u8 {
        assert_eq!(is_whitespace(b), char::from(b).is_whitespace(), "byte {}", b);
        assert_eq!(is_not_ws(b), !char::from(b).is_whitespace(), "byte {}", b);
    }
}

#[test]
fn quotes() {
    for b in 0..=255u8 {
        assert_eq!(is_quote(b), b == b'\'' || b == b'"', "byte {}", b);
    }
}

#[test]
fn identifier_bytes() {
    for b in 0..=255u8 {
        let c = char::from(b);
        let start = c.is_ascii_alphanumeric() || "_$/\\.-*".contains(c);
        assert_eq!(is_ident_start(b), start, "byte {}", b);
        assert_eq!(is_ident_continue(b), start || "()+,=".contains(c), "byte {}", b);
    }
}

#[test]
fn comparison_of_texts() {
    assert!(str_eq("", ""));
    assert!(str_eq("rule", "rule"));
    assert!(!str_eq("rule", "rules"));
    assert!(!str_eq("rule", "rulE"));
    assert!(!str_eq("", "x"));
    assert!(bytes_eq(b"ab", b"ab"));
    assert!(!bytes_eq(b"ab", b"ac"));
    assert!(!bytes_eq(b"ab", b"a"));
}

#[test]
fn reserved_words() {
    assert_eq!(keyword("actions"), Some(Token::Actions));
    assert_eq!(keyword("while"), Some(Token::While));
    assert_eq!(keyword("include"), Some(Token::Include));
    assert_eq!(keyword("in"), Some(Token::In));
    assert_eq!(keyword("i"), None);
    assert_eq!(keyword("While"), None);
    assert_eq!(keyword(""), None);
    assert_eq!(keyword("end"), None);
}

#[test]
fn punctuation_tables() {
    assert_eq!(single_token(b'('), Some(Token::LeftParen));
    assert_eq!(single_token(b'['), Some(Token::LeftBrace));
    assert_eq!(single_token(b'{'), Some(Token::LeftBracket));
    assert_eq!(single_token(b'='), Some(Token::Equals));
    assert_eq!(single_token(b'&'), None);
    assert_eq!(single_token(b'a'), None);
    assert_eq!(paired_tokens(b'&'), Some((b'&', Token::AmperAmper, Some(Token::Amper))));
    assert_eq!(paired_tokens(b'|'), Some((b'|', Token::BarBar, Some(Token::Bar))));
    assert_eq!(paired_tokens(b'!'), Some((b'=', Token::BangEquals, Some(Token::Bang))));
    assert_eq!(paired_tokens(b'<'), Some((b'=', Token::LeftAngleEquals, Some(Token::LeftAngle))));
    assert_eq!(paired_tokens(b'>'), Some((b'=', Token::RightAngleEquals, Some(Token::RightAngle))));
    assert_eq!(paired_tokens(b'?'), Some((b'=', Token::QuestionEquals, None)));
    assert_eq!(paired_tokens(b'+'), Some((b'=', Token::PlusEquals, None)));
    assert_eq!(paired_tokens(b'='), None);
}
