//! A small interpreted language: a lexer that turns source text into tokens,
//! a Pratt (precedence-climbing) parser that turns tokens into an abstract
//! syntax tree, and a tree-walking evaluator that executes the tree against a
//! chain of lexical scopes.
//!
//! Each stage has a mathematical model: spec-level twins of the token, AST and
//! runtime-value types, and spec functions giving the meaning of scanning,
//! printing and evaluation.  The executable code is proved to agree with those
//! models exactly.

pub mod display;
pub mod token;
pub mod ast;
pub mod builtins;
pub mod object;
pub mod environment;
pub mod precedence;
pub mod semantics;
pub mod evaluator;
pub mod lexer;
pub mod parser;
pub mod laws;
