//! An embeddable scripting language: parenthesized-call source text is
//! tokenized, parsed into an expression tree, and evaluated against a
//! mutable environment of variables, user-defined functions and keyed
//! collections.

pub mod assoc;
pub mod error;
pub mod evaluator;
pub mod expression;
pub mod laws;
pub mod numbers;
pub mod operators;
pub mod parser;
pub mod render;
pub mod scope;
