//! Front end of a small expression language: a scanner that turns source text
//! into tokens, a recursive-descent parser that builds an expression tree, and
//! traversals that render the tree.

pub mod token;
pub mod lexical;
pub mod scanner;
pub mod expr;
pub mod visitors;
pub mod grammar;
pub mod parser;
pub mod diagnostics;
pub mod runner;
