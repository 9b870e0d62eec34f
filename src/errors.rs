use vstd::prelude::*;

verus! {

/// A failure during evaluation. Each variant carries the byte offset of the
/// node that was being evaluated and the text of the whole expression.
#[derive(Debug)]
pub enum RuntimeError {
    TooManyArguments { offset: usize, expression: String, expected: usize, actual: usize },
    NotEnoughArguments { offset: usize, expression: String, expected: usize, actual: usize },
    InvalidType {
        offset: usize,
        expression: String,
        expected: String,
        actual: String,
        position: usize,
    },
    InvalidReturnType {
        offset: usize,
        expression: String,
        expected: String,
        actual: String,
        position: usize,
        invocation: usize,
    },
    UnknownFunction { offset: usize, expression: String, function: String },
    InvalidSlice { offset: usize, expression: String },
    InvalidKey { offset: usize, expression: String, actual: String },
}

/// The model of a `RuntimeError`: the failures that the interpreter raises
/// itself, and `Raised` for those that a function raised.
pub enum Failure {
    UnknownFunction { offset: nat, expression: Seq<char>, function: Seq<char> },
    InvalidSlice { offset: nat, expression: Seq<char> },
    InvalidKey { offset: nat, expression: Seq<char>, actual: Seq<char> },
    Raised,
}

impl View for RuntimeError {
    type V = Failure;

    open spec fn view(&self) -> Failure {
        match self {
            RuntimeError::UnknownFunction { offset, expression, function } => Failure::UnknownFunction {
                offset: *offset as nat,
                expression: expression@,
                function: function@,
            },
            RuntimeError::InvalidSlice { offset, expression } => Failure::InvalidSlice {
                offset: *offset as nat,
                expression: expression@,
            },
            RuntimeError::InvalidKey { offset, expression, actual } => Failure::InvalidKey {
                offset: *offset as nat,
                expression: expression@,
                actual: actual@,
            },
            _ => Failure::Raised,
        }
    }
}

} // verus!
