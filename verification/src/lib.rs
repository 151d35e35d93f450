//! A small, statically typed scripting language: its tokenizer, its
//! parser with the type check of declarations, and its evaluator.
//!
//! Source text is cut into tokens ([`tokenizer`]), the tokens are parsed
//! into a tree ([`parser`], [`ast`], [`checker`]), and the tree is
//! evaluated ([`interp`]). Every function states what it computes over
//! plain mathematical models: numbers are counts of units
//! ([`number`]), texts are sequences of characters, trees and tables
//! have views. What the grammar accepts is a set of functions over
//! tokens ([`parser::grammar`]), what a program does is a set of
//! functions over states ([`interp::semantics`]), and the executable code
//! is proved to agree with them.

pub mod ast;
pub mod checker;
pub mod compile;
pub mod env;
pub mod error_handler;
pub mod function;
pub mod interp;
pub mod literal;
pub mod number;
pub mod parser;
pub mod text;
pub mod tokenizer;
pub mod types;
pub mod var_func;
