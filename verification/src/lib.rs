//! Lexical front end of a Jam-style build description language: an incremental
//! byte buffer and the two-mode tokenizer built on it, together with the small
//! value types (lists, variables, environments, syntax tree nodes) that the
//! later stages of the toolchain share.

pub mod env;
pub mod lang;
pub mod lexer;
pub mod list;
pub mod path;
pub mod variable;
