//! The tokenizer and the byte buffer it reads from.

pub mod helpers;
pub mod text;
pub mod error;
pub mod token;
pub mod buffer;
pub mod reader;
pub mod grammar;
pub mod tokenizer;
pub mod laws;

pub use self::buffer::DynamicByteBuffer;
pub use self::error::{LexerError, LexerErrorCode};
pub use self::grammar::TokenizerMode;
pub use self::token::{Spanned, Token};
pub use self::tokenizer::Tokenizer;
