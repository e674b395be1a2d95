//! A small scripting language: a tokenizer, a recursive-descent parser, and a
//! tree-walking evaluator with lexical scoping and closures.
//!
//! The library is the language core. Everything that touches the outside world
//! (printing, reading files, running external commands, floating-point
//! arithmetic) is reached through the [`interp::Host`] trait, which the
//! surrounding application implements.

pub mod arith;
pub mod ast;
pub mod builtins;
pub mod errors;
pub mod interp;
pub mod laws;
pub mod lexer;
pub mod parser;
pub mod semantics;
pub mod strutil;
pub mod token;
pub mod value;
