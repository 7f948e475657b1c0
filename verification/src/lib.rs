//! The front end of the Clay language: a tokenizer, which turns a text into
//! tokens that are tagged with their places, and a parser, which turns the
//! tokens into a tree by precedence climbing. What the two compute is
//! stated by the functions of `lexer` and of `grammar`, and proved of the
//! code; `laws` and `shape` hold what follows of the grammar.
use vstd::prelude::*;

pub mod ast;
pub mod errors;
pub mod grammar;
pub mod laws;
pub mod lexer;
pub mod parser;
pub mod shape;
pub mod token;

verus! {

} // verus!
