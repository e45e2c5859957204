//! Checks a syntax tree and builds the tree of a checked program.

pub mod avt;
