//! What can go wrong while a rule is built or evaluated.

use vstd::prelude::*;
use crate::function::SingleInputFunction;
use crate::function::aggregator::Aggregator;
use crate::function::list_function::ListFunction;

verus! {

/// The function on whose behalf a value was read.
#[derive(Clone, Copy, Debug, PartialEq, Eq, Hash, Structural)]
pub enum FunctionName {
    Single(SingleInputFunction),
    List(ListFunction),
    Aggregate(Aggregator),
}

/// Which of a function's operands a failure is about: the value under test,
/// or the literal argument at a position.
#[derive(Clone, Copy, Debug, PartialEq, Eq, Hash, Structural)]
pub enum Operand {
    Input,
    Argument(usize),
}

/// The failures of the engine. Evaluation stops at the first one.
#[derive(Clone, Debug, PartialEq, Eq)]
pub enum EngineError {
    /// A function was given another number of arguments than it takes.
    Arity { function: FunctionName, expected: usize, found: usize },
    /// An operand did not carry the tag the function reads.
    TypeMismatch { function: FunctionName, operand: Operand },
    /// A text operand has no reading as a number.
    Coercion { function: FunctionName, operand: Operand, text: String },
    /// No function is registered under the name.
    UnknownFunction { name: String },
    /// A reduction was asked of no elements.
    EmptyInput { function: FunctionName },
}

/// An `EngineError` with its texts as sequences of characters.
pub enum Failure {
    Arity { function: FunctionName, expected: usize, found: usize },
    TypeMismatch { function: FunctionName, operand: Operand },
    Coercion { function: FunctionName, operand: Operand, text: Seq<char> },
    UnknownFunction { name: Seq<char> },
    EmptyInput { function: FunctionName },
}

impl View for EngineError {
    type V = Failure;

    open spec fn view(&self) -> Failure {
        match *self {
            EngineError::Arity { function, expected, found } => Failure::Arity {
                function,
                expected,
                found,
            },
            EngineError::TypeMismatch { function, operand } => Failure::TypeMismatch {
                function,
                operand,
            },
            EngineError::Coercion { function, operand, text } => Failure::Coercion {
                function,
                operand,
                text: text@,
            },
            EngineError::UnknownFunction { name } => Failure::UnknownFunction { name: name@ },
            EngineError::EmptyInput { function } => Failure::EmptyInput { function },
        }
    }
}

/// The result of an evaluation with its error seen through its view.
pub open spec fn outcome<T>(r: Result<T, EngineError>) -> Result<T, Failure> {
    match r {
        Ok(v) => Ok(v),
        Err(e) => Err(e@),
    }
}

impl Failure {
    /// The line of text that describes a failure.
    pub open spec fn description(self) -> Seq<char> {
        match self {
            Failure::Arity { .. } => "wrong number of arguments"@,
            Failure::TypeMismatch { .. } => "operand is not of the expected type"@,
            Failure::Coercion { text, .. } => "could not convert to number: "@ + text,
            Failure::UnknownFunction { name } => "unknown function: "@ + name,
            Failure::EmptyInput { .. } => "no inputs provided"@,
        }
    }
}

impl EngineError {
    /// A line of text for a log or a message.
    pub fn describe(&self) -> (s: String)
        ensures
            s@ == self@.description(),
    {
        match self {
            EngineError::Arity { .. } => "wrong number of arguments".to_owned(),
            EngineError::TypeMismatch { .. } => "operand is not of the expected type".to_owned(),
            EngineError::Coercion { text, .. } => {
                let mut s = "could not convert to number: ".to_owned();
                s.append(text.as_str());
                s
            },
            EngineError::UnknownFunction { name } => {
                let mut s = "unknown function: ".to_owned();
                s.append(name.as_str());
                s
            },
            EngineError::EmptyInput { .. } => "no inputs provided".to_owned(),
        }
    }
}

} // verus!
