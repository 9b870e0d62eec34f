//! Evaluation core of a JSON query language: a value model, an abstract
//! syntax tree and a tree interpreter with contracts over a mathematical
//! model of both.

pub mod ast;
pub mod variable;
pub mod errors;
pub mod functions;
pub mod interpreter;
pub mod laws;
pub mod runtime;
pub mod semantics;
