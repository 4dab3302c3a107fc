//! The assembler: source text to machine code.
pub mod lexer;
pub mod ir;
pub mod parser;
pub mod misc;
pub mod tmp_f_tracker;
pub mod assembler;
pub mod front;
pub mod flat;
pub mod helpers;
