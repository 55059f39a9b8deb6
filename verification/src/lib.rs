//! Front end for a small PHP-like scripting language: a lexer that turns
//! source text into a stream of position-annotated tokens, and a
//! recursive-descent parser that turns that stream into an abstract syntax
//! tree of statements and expressions.

pub mod ast;
pub mod lexer;
pub mod parser;
pub mod token;

use vstd::prelude::*;

verus! {

} // verus!
