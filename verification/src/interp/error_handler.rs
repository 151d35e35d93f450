//! The errors of the prefix notation.

use vstd::prelude::*;
use crate::text::join2;

verus! {

/// The ways in which reading or running a program in prefix form can
/// fail.
#[derive(Debug, Clone, PartialEq, Eq)]
pub enum ErrorHandler {
    DivisionByZero,
    ParseError(String),
    VariableNotFound(String),
    FunctionOrOperatorNotFound(String),
}

/// What an [`ErrorHandler`] says.
pub enum PrefixError {
    DivisionByZero,
    ParseError(Seq<char>),
    VariableNotFound(Seq<char>),
    FunctionOrOperatorNotFound(Seq<char>),
}

impl View for ErrorHandler {
    type V = PrefixError;

    open spec fn view(&self) -> PrefixError {
        match self {
            ErrorHandler::DivisionByZero => PrefixError::DivisionByZero,
            ErrorHandler::ParseError(d) => PrefixError::ParseError(d@),
            ErrorHandler::VariableNotFound(n) => PrefixError::VariableNotFound(n@),
            ErrorHandler::FunctionOrOperatorNotFound(n) => PrefixError::FunctionOrOperatorNotFound(
                n@,
            ),
        }
    }
}

/// The one-line diagnostic of an error.
pub open spec fn prefix_message(e: PrefixError) -> Seq<char> {
    match e {
        PrefixError::DivisionByZero => "Error: Division by zero"@,
        PrefixError::ParseError(d) => "Error: Parse error - "@ + d,
        PrefixError::VariableNotFound(n) => "Error: Variable '"@ + n + "' not found"@,
        PrefixError::FunctionOrOperatorNotFound(n) => "Error: Function or operator '"@ + n
            + "' not found"@,
    }
}

impl ErrorHandler {
    /// The error's diagnostic line.
    pub fn to_string(&self) -> (s: String)
        ensures
            s@ == prefix_message(self@),
    {
        match self {
            ErrorHandler::DivisionByZero => String::from_str("Error: Division by zero"),
            ErrorHandler::ParseError(d) => join2("Error: Parse error - ", d.as_str()),
            ErrorHandler::VariableNotFound(n) => {
                let mut s = join2("Error: Variable '", n.as_str());
                s.append("' not found");
                s
            },
            ErrorHandler::FunctionOrOperatorNotFound(n) => {
                let mut s = join2("Error: Function or operator '", n.as_str());
                s.append("' not found");
                s
            },
        }
    }
}

} // verus!
