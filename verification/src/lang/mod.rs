//! The syntax tree of the build language and what is reported of it.

pub mod ast;
pub mod compiler;
