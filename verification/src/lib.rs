//! The front end of the Brite toolchain: source documents and their coordinates, the lexer,
//! the tolerant parser, and the diagnostics they report.

pub mod checker;
pub mod diagnostics;
pub mod language;
pub mod source;
pub mod utils;
