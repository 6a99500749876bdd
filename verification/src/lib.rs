//! Compiles the murkdown inline markup language, and conventional Markdown,
//! into a plain text buffer plus a list of formatting entities whose offsets
//! and lengths are counted in UTF-16 code units of the emitted text.

pub mod builder;
pub mod entities;
pub mod keys;
pub mod laws;
pub mod lexer;
pub mod md;
pub mod meta;
pub mod parser;
pub mod perms;
pub mod resolve;
pub mod span;
pub mod text;
