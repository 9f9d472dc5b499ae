//! Lexical analysis for a small Oberon-style language: a character cursor and
//! the recogniser that turns source text into position-tagged symbols.

pub mod text;
pub mod grammar;
pub mod scanner;
pub mod laws;
