//! The bytes that the language gives a meaning to, and its byte classes.

use vstd::prelude::*;

verus! {

/// `!`
pub const BANG: u8 = 0x21;

/// `"`
pub const DOUBLE_QUOTE: u8 = 0x22;

/// `#`
pub const HASH: u8 = 0x23;

/// `$`
pub const DOLLAR: u8 = 0x24;

/// `&`
pub const AMPER: u8 = 0x26;

/// `'`
pub const QUOTE: u8 = 0x27;

/// `(`
pub const LEFT_PAREN: u8 = 0x28;

/// `)`
pub const RIGHT_PAREN: u8 = 0x29;

/// `*`
pub const STAR: u8 = 0x2a;

/// `+`
pub const PLUS: u8 = 0x2b;

/// `,`
pub const COMMA: u8 = 0x2c;

/// `-`
pub const MINUS: u8 = 0x2d;

/// `.`
pub const DOT: u8 = 0x2e;

/// `/`
pub const SLASH: u8 = 0x2f;

/// `:`
pub const COLON: u8 = 0x3a;

/// `;`
pub const SEMICOLON: u8 = 0x3b;

/// `<`
pub const LEFT_ANGLE: u8 = 0x3c;

/// `=`
pub const EQUALS: u8 = 0x3d;

/// `>`
pub const RIGHT_ANGLE: u8 = 0x3e;

/// `?`
pub const QUESTION: u8 = 0x3f;

/// `[`
pub const LEFT_SQUARE: u8 = 0x5b;

/// `\`
pub const BACKSLASH: u8 = 0x5c;

/// `]`
pub const RIGHT_SQUARE: u8 = 0x5d;

/// `_`
pub const UNDERSCORE: u8 = 0x5f;

/// `{`
pub const LEFT_CURLY: u8 = 0x7b;

/// `|`
pub const BAR: u8 = 0x7c;

/// `}`
pub const RIGHT_CURLY: u8 = 0x7d;

/// The line feed, which ends a comment.
pub const NEWLINE: u8 = 0x0a;

/// A single or a double quote.
pub open spec fn spec_is_quote(b: u8) -> bool {
    b == QUOTE || b == DOUBLE_QUOTE
}

/// The bytes that are white space when read as the characters U+0000 to
/// U+00FF: tab, line feed, vertical tab, form feed, carriage return, space,
/// next line (U+0085) and no-break space (U+00A0).
pub open spec fn spec_is_whitespace(b: u8) -> bool {
    (0x09 <= b && b <= 0x0d) || b == 0x20 || b == 0x85 || b == 0xa0
}

/// Any byte but white space.
pub open spec fn spec_is_not_ws(b: u8) -> bool {
    !spec_is_whitespace(b)
}

/// An ASCII letter or digit.
pub open spec fn is_alphanumeric(b: u8) -> bool {
    (0x61 <= b && b <= 0x7a) || (0x41 <= b && b <= 0x5a) || (0x30 <= b && b <= 0x39)
}

/// The bytes that may begin an identifier: letters, digits, and
/// `_ $ / \ . - *`.
pub open spec fn spec_is_ident_start(b: u8) -> bool {
    is_alphanumeric(b) || b == UNDERSCORE || b == DOLLAR || b == SLASH || b == BACKSLASH || b == DOT
        || b == MINUS || b == STAR
}

/// The bytes that may continue an identifier: those that may begin one, and
/// `( ) + , =`, so that a variable expansion inside a word stays part of it.
pub open spec fn spec_is_ident_continue(b: u8) -> bool {
    spec_is_ident_start(b) || b == LEFT_PAREN || b == RIGHT_PAREN || b == PLUS || b == COMMA || b
        == EQUALS
}

/// Tells whether `b` opens (and closes) a string literal.
#[verifier::when_used_as_spec(spec_is_quote)]
pub fn is_quote(b: u8) -> (r: bool)
    ensures
        r == spec_is_quote(b),
{
    b == QUOTE || b == DOUBLE_QUOTE
}

/// Tells whether `b` is white space.
#[verifier::when_used_as_spec(spec_is_whitespace)]
pub fn is_whitespace(b: u8) -> (r: bool)
    ensures
        r == spec_is_whitespace(b),
{
    (0x09 <= b && b <= 0x0d) || b == 0x20 || b == 0x85 || b == 0xa0
}

/// Tells whether `b` is anything but white space.
#[verifier::when_used_as_spec(spec_is_not_ws)]
pub fn is_not_ws(b: u8) -> (r: bool)
    ensures
        r == spec_is_not_ws(b),
{
    !is_whitespace(b)
}

/// Tells whether `b` may begin an identifier.
#[verifier::when_used_as_spec(spec_is_ident_start)]
pub fn is_ident_start(b: u8) -> (r: bool)
    ensures
        r == spec_is_ident_start(b),
{
    if b == UNDERSCORE || b == DOLLAR {
        true
    } else if 0x61 <= b && b <= 0x7a {
        true
    } else if 0x41 <= b && b <= 0x5a {
        true
    } else if 0x30 <= b && b <= 0x39 {
        true
    } else if b == SLASH || b == BACKSLASH {
        true
    } else if b == DOT || b == MINUS {
        true
    } else {
        b == STAR
    }
}

/// Tells whether `b` may continue an identifier.
#[verifier::when_used_as_spec(spec_is_ident_continue)]
pub fn is_ident_continue(b: u8) -> (r: bool)
    ensures
        r == spec_is_ident_continue(b),
{
    if b == LEFT_PAREN || b == RIGHT_PAREN {
        true
    } else if b == PLUS || b == COMMA {
        true
    } else if b == EQUALS {
        true
    } else {
        is_ident_start(b)
    }
}

} // verus!
