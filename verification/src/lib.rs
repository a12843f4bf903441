//! A front end for a small expression language: a scanner that turns source
//! text into tokens, a recursive-descent parser that turns tokens into a
//! syntax tree, and a printer that renders the tree as a directed graph.

pub mod ast;
pub mod error;
pub mod grammar;
pub mod grammar_laws;
pub mod interpreter;
pub mod lexical;
pub mod lexical_laws;
pub mod parser;
pub mod scanner;
pub mod text;
pub mod token;
