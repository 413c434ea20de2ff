//! Core of a tree-walking interpreter for a small dynamically-typed
//! expression language: a Pratt parser that turns lexical tokens into an
//! abstract syntax tree, and an evaluator over a tagged runtime value model
//! with lexical closures and a fixed registry of built-in functions.

pub mod token;
pub mod numtext;
pub mod ast;
pub mod lexer;
pub mod object;
pub mod env;
pub mod builtins;
pub mod parser;
pub mod evaluator;
pub mod laws;
