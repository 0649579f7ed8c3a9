//! A small Danish teaching language: lexer, parser, interpreter and C code generator.
use vstd::prelude::*;

pub mod ast;
pub mod tekst;
pub mod tabel;
pub mod evaluator;
pub mod lexer;
pub mod parser;
pub mod kodegenerator;
pub mod egenskaber;
pub mod genkoersel;
pub mod lexer_love;
pub mod parser_love;
pub mod kode_love;
pub mod program;
pub mod besked;

verus! {
} // verus!
