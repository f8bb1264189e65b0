use jam::lexer::{LexerError, LexerErrorCode, Spanned, Token, Tokenizer, TokenizerMode};

fn tokenizer(data: &[u8]) -> Tokenizer {
    let mut t = Tokenizer::new();
    t.include_data(data);
    t
}

fn token(t: &mut Tokenizer) -> (usize, Token, usize) {
    match t.next() {
        Some(Ok(spanned)) => spanned,
        other => panic!("expected a token, got {:?}", other),
    }
}

fn failure(r: Option<Spanned<Token, usize, LexerError>>) -> (LexerErrorCode, usize) {
    match r {
        Some(Err(e)) => (e.code, e.location),
        other => panic!("expected a failure, got {:?}", other),
    }
}

fn all(data: &[u8]) -> Vec<(usize, Token, usize)> {
    let mut t = tokenizer(data);
    let mut found = Vec::new();
    loop {
        match t.next() {
            Some(Ok(spanned)) => found.push(spanned),
            Some(Err(e)) => panic!("failure {:?}", e),
            None => return found,
        }
    }
}

fn ident(s: &str) -> Token {
    Token::Ident(s.to_string())
}

#[test]
fn empty_input_is_at_its_end() {
    let mut t = Tokenizer::new();
    assert!(t.next().is_none());
    assert_eq!(t.index(), 0);
    assert_eq!(t.lookahead(), None);
    assert_eq!(t.mode(), TokenizerMode::Normal);
}

#[test]
fn blanks_alone_make_no_token() {
    let mut t = tokenizer(b"  \t\r\n# a comment\n   # another, not ended");
    assert!(t.next().is_none());
    assert!(t.next().is_none());
    assert_eq!(t.index(), t.buffer().len());
}

#[test]
fn white_space_beyond_ascii_is_passed_over() {
    let mut t = tokenizer(&[0x85, 0xa0, 0x0b, 0x0c, b'x']);
    assert_eq!(token(&mut t), (4, ident("x"), 5));
    assert!(t.next().is_none());
}

#[test]
fn two_ampersands_are_one_token() {
    let mut t = tokenizer(b"&&");
    assert_eq!(token(&mut t), (0, Token::AmperAmper, 2));
    assert!(t.next().is_none());
}

#[test]
fn one_ampersand_before_a_word() {
    let mut t = tokenizer(b"&x");
    assert_eq!(token(&mut t), (0, Token::Amper, 1));
    assert_eq!(token(&mut t), (1, ident("x"), 2));
    assert!(t.next().is_none());
}

#[test]
fn every_punctuation() {
    let found = all(b"! != & && ( ) += : ; < <= = > >= ?= [ ] | || { }");
    let expected = vec![
        (0, Token::Bang, 1),
        (2, Token::BangEquals, 4),
        (5, Token::Amper, 6),
        (7, Token::AmperAmper, 9),
        (10, Token::LeftParen, 11),
        (12, Token::RightParen, 13),
        (14, Token::PlusEquals, 16),
        (17, Token::Colon, 18),
        (19, Token::SemiColon, 20),
        (21, Token::LeftAngle, 22),
        (23, Token::LeftAngleEquals, 25),
        (26, Token::Equals, 27),
        (28, Token::RightAngle, 29),
        (30, Token::RightAngleEquals, 32),
        (33, Token::QuestionEquals, 35),
        (36, Token::LeftBrace, 37),
        (38, Token::RightBrace, 39),
        (40, Token::Bar, 41),
        (42, Token::BarBar, 44),
        (45, Token::LeftBracket, 46),
        (47, Token::RightBracket, 48),
    ];
    assert_eq!(found, expected);
}

#[test]
fn punctuation_at_the_end_of_the_input() {
    assert_eq!(all(b"|"), vec![(0, Token::Bar, 1)]);
    assert_eq!(all(b"<"), vec![(0, Token::LeftAngle, 1)]);
    assert_eq!(all(b">"), vec![(0, Token::RightAngle, 1)]);
    assert_eq!(all(b"!"), vec![(0, Token::Bang, 1)]);
    assert_eq!(all(b"&"), vec![(0, Token::Amper, 1)]);
}

#[test]
fn anything_but_a_brace_behind_actions_begins_a_body() {
    let mut t = tokenizer(b"actions bind");
    assert_eq!(token(&mut t), (0, Token::Actions, 7));
    assert_eq!(t.mode(), TokenizerMode::Action);
    assert_eq!(failure(t.next()), (LexerErrorCode::UnterminatedCodeBlock, 7));
}

#[test]
fn reserved_words_one_by_one() {
    let table = vec![
        ("bind", Token::Bind),
        ("break", Token::Break),
        ("case", Token::Case),
        ("continue", Token::Continue),
        ("default", Token::Default),
        ("else", Token::Else),
        ("existing", Token::Existing),
        ("for", Token::For),
        ("if", Token::If),
        ("ignore", Token::Ignore),
        ("in", Token::In),
        ("include", Token::Include),
        ("local", Token::Local),
        ("maxline", Token::Maxline),
        ("on", Token::On),
        ("piecemeal", Token::Piecemeal),
        ("quietly", Token::Quietly),
        ("return", Token::Return),
        ("rule", Token::Rule),
        ("switch", Token::Switch),
        ("together", Token::Together),
        ("updated", Token::Updated),
        ("while", Token::While),
    ];
    for (word, expected) in table {
        let mut t = tokenizer(word.as_bytes());
        assert_eq!(token(&mut t), (0, expected, word.len()));
        assert_eq!(t.mode(), TokenizerMode::Normal);
        assert!(t.next().is_none());
    }
}

#[test]
fn reserved_words_are_matched_exactly() {
    assert_eq!(all(b"Local"), vec![(0, ident("Local"), 5)]);
    assert_eq!(all(b"locals"), vec![(0, ident("locals"), 6)]);
    assert_eq!(all(b"loca"), vec![(0, ident("loca"), 4)]);
    assert_eq!(all(b"if("), vec![(0, ident("if("), 3)]);
}

#[test]
fn a_word_ends_where_no_identifier_goes_on() {
    assert_eq!(all(b"foo;"), vec![(0, ident("foo"), 3), (3, Token::SemiColon, 4)]);
    assert_eq!(all(b"a:b"), vec![(0, ident("a"), 1), (1, Token::Colon, 2), (2, ident("b"), 3)]);
    assert_eq!(all(b"x=y"), vec![(0, ident("x=y"), 3)]);
    assert_eq!(all(b"a+b,c"), vec![(0, ident("a+b,c"), 5)]);
    assert_eq!(all(b"-o /usr\\bin *.c _v 9"), vec![
        (0, ident("-o"), 2),
        (3, ident("/usr\\bin"), 11),
        (12, ident("*.c"), 15),
        (16, ident("_v"), 18),
        (19, ident("9"), 20),
    ]);
}

#[test]
fn expansions_stay_inside_a_word() {
    assert_eq!(all(b"ba$(BLAH)"), vec![(0, ident("ba$(BLAH)"), 9)]);
    assert_eq!(all(b"$(BLAH)foo"), vec![(0, ident("$(BLAH)foo"), 10)]);
}

#[test]
fn question_mark_needs_equals() {
    let mut t = tokenizer(b"? x");
    assert_eq!(failure(t.next()), (LexerErrorCode::UnexpectedToken, 0));
    // The byte was read past: the tokenizer goes on behind it.
    assert_eq!(token(&mut t), (2, ident("x"), 3));
}

#[test]
fn plus_needs_equals() {
    let mut t = tokenizer(b"a +");
    assert_eq!(token(&mut t), (0, ident("a"), 1));
    assert_eq!(failure(t.next()), (LexerErrorCode::UnexpectedToken, 2));
    assert!(t.next().is_none());
}

#[test]
fn a_byte_that_begins_nothing_is_reported_again_and_again() {
    let mut t = tokenizer(b" @x");
    assert_eq!(failure(t.next()), (LexerErrorCode::UnrecognizedToken, 1));
    assert_eq!(failure(t.next()), (LexerErrorCode::UnrecognizedToken, 1));
    assert_eq!(t.lookahead(), Some((1, b'@')));
    t.advance();
    assert_eq!(token(&mut t), (2, ident("x"), 3));
}

#[test]
fn a_comma_begins_nothing() {
    let mut t = tokenizer(b",");
    assert_eq!(failure(t.next()), (LexerErrorCode::UnrecognizedToken, 0));
}

#[test]
fn literal_keeps_its_escapes() {
    let mut t = tokenizer(b"x \"a\\\"b\\\\\" y");
    assert_eq!(token(&mut t), (0, ident("x"), 1));
    assert_eq!(token(&mut t), (2, Token::StringLiteral("a\\\"b\\\\".to_string()), 10));
    assert_eq!(token(&mut t), (11, ident("y"), 12));
}

#[test]
fn literal_in_single_quotes() {
    let mut t = tokenizer(b"'it is \"so\"'");
    assert_eq!(token(&mut t), (0, Token::StringLiteral("it is \"so\"".to_string()), 12));
    assert!(t.next().is_none());
}

#[test]
fn empty_literal() {
    assert_eq!(all(b"\"\""), vec![(0, Token::StringLiteral(String::new()), 2)]);
}

#[test]
fn literal_spans_its_quotes() {
    let data = b"local val = \"boom boom pow\" ;";
    let mut t = tokenizer(data);
    token(&mut t);
    token(&mut t);
    token(&mut t);
    let (start, tok, end) = token(&mut t);
    assert_eq!(data[start], b'"');
    assert_eq!(data[end - 1], b'"');
    assert_eq!(tok, Token::StringLiteral("boom boom pow".to_string()));
    assert_eq!(&data[start + 1..end - 1], b"boom boom pow");
}

#[test]
fn unterminated_literal_is_reported_at_its_quote() {
    let mut t = tokenizer(b"ab \"cd");
    assert_eq!(token(&mut t), (0, ident("ab"), 2));
    assert_eq!(failure(t.next()), (LexerErrorCode::UnterminatedStringLiteral, 3));
    assert_eq!(t.index(), 6);
    assert!(t.next().is_none());
}

#[test]
fn escaped_quote_does_not_close() {
    let mut t = tokenizer(b"'a\\'");
    assert_eq!(failure(t.next()), (LexerErrorCode::UnterminatedStringLiteral, 0));
}

#[test]
fn text_that_is_not_utf8_is_replaced() {
    let mut t = tokenizer(&[b'"', 0xff, b'a', b'"']);
    assert_eq!(token(&mut t), (0, Token::StringLiteral("\u{fffd}a".to_string()), 4));
}

#[test]
fn text_beyond_ascii_is_kept() {
    let data = "'gr\u{fc}n'".as_bytes();
    let mut t = tokenizer(data);
    assert_eq!(token(&mut t), (0, Token::StringLiteral("gr\u{fc}n".to_string()), data.len()));
}

#[test]
fn the_word_actions_starts_action_mode() {
    let mut t = tokenizer(b"actions{ cp $(<) \"}\" {x} }done");
    assert_eq!(token(&mut t), (0, Token::Actions, 7));
    assert_eq!(t.mode(), TokenizerMode::Action);
    assert_eq!(token(&mut t), (7, Token::LeftBracket, 8));
    assert_eq!(t.mode(), TokenizerMode::Action);
    assert_eq!(
        token(&mut t),
        (8, Token::ActionString(" cp $(<) \"}\" {x} ".to_string()), 25)
    );
    assert_eq!(t.mode(), TokenizerMode::Normal);
    assert_eq!(t.lookahead(), Some((25, b'}')));
    assert_eq!(token(&mut t), (25, Token::RightBracket, 26));
    assert_eq!(token(&mut t), (26, ident("done"), 30));
    assert!(t.next().is_none());
}

#[test]
fn body_that_begins_with_a_literal() {
    let mut t = Tokenizer::new();
    t.set_mode(TokenizerMode::Action);
    t.include_data(b"{\"}\" }");
    assert_eq!(token(&mut t), (0, Token::LeftBracket, 1));
    assert_eq!(token(&mut t), (1, Token::ActionString("\"}\" ".to_string()), 5));
    assert_eq!(token(&mut t), (5, Token::RightBracket, 6));
}

#[test]
fn brace_behind_a_literal_closes_the_body() {
    let mut t = Tokenizer::new();
    t.set_mode(TokenizerMode::Action);
    t.include_data(b"{ echo 'hi'}");
    assert_eq!(token(&mut t), (0, Token::LeftBracket, 1));
    assert_eq!(token(&mut t), (1, Token::ActionString(" echo 'hi'".to_string()), 11));
    assert_eq!(token(&mut t), (11, Token::RightBracket, 12));
}

#[test]
fn braces_in_action_mode_are_tokens() {
    let mut t = Tokenizer::new();
    t.set_mode(TokenizerMode::Action);
    t.include_data(b"{}");
    assert_eq!(token(&mut t), (0, Token::LeftBracket, 1));
    assert_eq!(token(&mut t), (1, Token::RightBracket, 2));
    assert_eq!(t.mode(), TokenizerMode::Action);
    assert_eq!(failure(t.next()), (LexerErrorCode::UnrecognizedToken, 2));
}

#[test]
fn unterminated_body_is_reported_at_its_start() {
    let mut t = Tokenizer::new();
    t.set_mode(TokenizerMode::Action);
    t.include_data(b"{ cmd {} ");
    assert_eq!(token(&mut t), (0, Token::LeftBracket, 1));
    assert_eq!(failure(t.next()), (LexerErrorCode::UnterminatedCodeBlock, 1));
    assert_eq!(t.mode(), TokenizerMode::Action);
    assert_eq!(t.index(), 9);
    assert_eq!(failure(t.next()), (LexerErrorCode::UnrecognizedToken, 9));
}

#[test]
fn unterminated_literal_in_a_body_is_reported_at_its_quote() {
    let mut t = Tokenizer::new();
    t.set_mode(TokenizerMode::Action);
    t.include_data(b"{ echo \"} ");
    assert_eq!(token(&mut t), (0, Token::LeftBracket, 1));
    assert_eq!(failure(t.next()), (LexerErrorCode::UnterminatedStringLiteral, 7));
    assert_eq!(t.mode(), TokenizerMode::Action);
}

#[test]
fn action_mode_without_bytes() {
    let mut t = Tokenizer::new();
    t.set_mode(TokenizerMode::Action);
    assert_eq!(failure(t.next()), (LexerErrorCode::UnrecognizedToken, 0));
}

#[test]
fn spans_give_back_the_lexemes() {
    let data: &[u8] = b"rule Cc { local o = $(p:S=.o) ; if $(x) != 'a b' && ! $(y) { x += [ f ] ; } } # end";
    let found = all(data);
    assert_eq!(found.len(), 26);
    let mut last = 0;
    for (start, tok, end) in found {
        assert!(last <= start);
        assert!(end > start);
        last = end;
        let raw = &data[start..end];
        match tok {
            Token::Ident(text) => assert_eq!(text.as_bytes(), raw),
            Token::StringLiteral(text) => assert_eq!(text.as_bytes(), &raw[1..raw.len() - 1]),
            Token::ActionString(text) => assert_eq!(text.as_bytes(), raw),
            Token::Rule => assert_eq!(raw, b"rule"),
            Token::Local => assert_eq!(raw, b"local"),
            Token::If => assert_eq!(raw, b"if"),
            Token::LeftBracket => assert_eq!(raw, b"{"),
            Token::RightBracket => assert_eq!(raw, b"}"),
            Token::LeftBrace => assert_eq!(raw, b"["),
            Token::RightBrace => assert_eq!(raw, b"]"),
            Token::SemiColon => assert_eq!(raw, b";"),
            Token::BangEquals => assert_eq!(raw, b"!="),
            Token::AmperAmper => assert_eq!(raw, b"&&"),
            Token::Bang => assert_eq!(raw, b"!"),
            Token::PlusEquals => assert_eq!(raw, b"+="),
            Token::Equals => assert_eq!(raw, b"="),
            Token::Colon => assert_eq!(raw, b":"),
            other => panic!("unexpected {:?}", other),
        }
    }
}

#[test]
fn bytes_may_come_in_pieces() {
    let mut t = Tokenizer::new();
    t.include_data(b"local ");
    assert_eq!(token(&mut t), (0, Token::Local, 5));
    assert!(t.next().is_none());
    t.include_data(b"x = y");
    assert_eq!(t.buffer().as_slice(), b"local x = y");
    assert_eq!(token(&mut t), (6, ident("x"), 7));
    assert_eq!(token(&mut t), (8, Token::Equals, 9));
    assert_eq!(token(&mut t), (10, ident("y"), 11));
    assert!(t.next().is_none());
    t.include_data(b"");
    assert!(t.next().is_none());
}

#[test]
fn new_bytes_go_in_at_the_cursor() {
    let mut t = tokenizer(b"ab cd");
    assert_eq!(token(&mut t), (0, ident("ab"), 2));
    assert_eq!(t.lookahead(), Some((2, b' ')));
    assert_eq!(t.index(), 3);
    t.include_data(b"xy ");
    assert_eq!(t.buffer().as_slice(), b"ab xy cd");
    assert_eq!(t.lookahead(), Some((2, b' ')));
    assert_eq!(token(&mut t), (3, ident("xy"), 5));
    assert_eq!(token(&mut t), (6, ident("cd"), 8));
}

#[test]
fn advance_reads_one_byte() {
    let mut t = tokenizer(b"ab");
    assert_eq!(t.lookahead(), Some((0, b'a')));
    assert_eq!(t.index(), 1);
    assert_eq!(t.advance(), Some((1, b'b')));
    assert_eq!(t.index(), 2);
    assert_eq!(t.advance(), None);
    assert_eq!(t.index(), 2);
    assert_eq!(t.lookahead(), None);
}

#[test]
fn seek_moves_the_cursor_and_keeps_the_lookahead() {
    let mut t = tokenizer(b"ab cd");
    assert_eq!(token(&mut t), (0, ident("ab"), 2));
    t.seek(0);
    assert_eq!(t.index(), 0);
    assert_eq!(t.lookahead(), Some((2, b' ')));
    // The lookahead is a blank; the next read takes the byte at the cursor.
    assert_eq!(token(&mut t), (0, ident("ab"), 2));
    t.seek(100);
    assert_eq!(t.index(), 5);
    assert!(t.next().is_none());
}

#[test]
fn seek_then_advance_reads_at_the_new_offset() {
    let mut t = tokenizer(b"ab cd");
    t.seek(3);
    assert_eq!(t.advance(), Some((3, b'c')));
    assert_eq!(token(&mut t), (3, ident("cd"), 5));
}

#[test]
fn a_lookahead_left_behind_by_seek_begins_the_next_token() {
    let mut t = tokenizer(b"'a' '");
    assert_eq!(token(&mut t), (0, Token::StringLiteral("a".to_string()), 3));
    assert_eq!(t.advance(), Some((4, b'\'')));
    t.seek(0);
    // The quote at offset 4 opens a literal, and the bytes from the cursor
    // on are its text: the quote at offset 0 closes it.
    assert_eq!(token(&mut t), (4, Token::StringLiteral(String::new()), 1));
    assert_eq!(t.lookahead(), Some((1, b'a')));
}
