//! The errors of parsing and of evaluation, with their diagnostics.

use vstd::prelude::*;
use crate::text::join2;

verus! {

/// Every way in which parsing or evaluation can end early.
#[derive(Debug, Clone, PartialEq, Eq)]
pub enum ErrorHandler {
    NoProgram,
    DivisionByZero,
    TooManyArguments(String),
    TooFewArguments(String),
    SyntaxError(String),
    ParseError(String),
    TypeError(String, String),
    VariableNotFound(String),
    FunctionNotFound(String),
    FunctionOrVariableNotFound(String),
    UnknownToken(String),
    UnexpectedToken(String, String),
    ReturnOutsideFunction,
    UnexpectedEndOfProgram,
    VariableAlreadyExists(String),
    StackOverflow,
    /// A result too large for a number.
    NumberOutOfRange,
    /// A loop ran for more rounds than the interpreter allows.
    LoopLimitExceeded,
    /// The program asked to end with this exit code.
    ExitRequested(i32),
}

/// What an [`ErrorHandler`] says, with its texts as sequences of
/// characters.
pub enum ErrorKind {
    NoProgram,
    DivisionByZero,
    TooManyArguments(Seq<char>),
    TooFewArguments(Seq<char>),
    SyntaxError(Seq<char>),
    ParseError(Seq<char>),
    TypeError(Seq<char>, Seq<char>),
    VariableNotFound(Seq<char>),
    FunctionNotFound(Seq<char>),
    FunctionOrVariableNotFound(Seq<char>),
    UnknownToken(Seq<char>),
    UnexpectedToken(Seq<char>, Seq<char>),
    ReturnOutsideFunction,
    UnexpectedEndOfProgram,
    VariableAlreadyExists(Seq<char>),
    StackOverflow,
    NumberOutOfRange,
    LoopLimitExceeded,
    ExitRequested(int),
}

impl View for ErrorHandler {
    type V = ErrorKind;

    open spec fn view(&self) -> ErrorKind {
        match self {
            ErrorHandler::NoProgram => ErrorKind::NoProgram,
            ErrorHandler::DivisionByZero => ErrorKind::DivisionByZero,
            ErrorHandler::TooManyArguments(f) => ErrorKind::TooManyArguments(f@),
            ErrorHandler::TooFewArguments(f) => ErrorKind::TooFewArguments(f@),
            ErrorHandler::SyntaxError(d) => ErrorKind::SyntaxError(d@),
            ErrorHandler::ParseError(d) => ErrorKind::ParseError(d@),
            ErrorHandler::TypeError(e, f) => ErrorKind::TypeError(e@, f@),
            ErrorHandler::VariableNotFound(n) => ErrorKind::VariableNotFound(n@),
            ErrorHandler::FunctionNotFound(n) => ErrorKind::FunctionNotFound(n@),
            ErrorHandler::FunctionOrVariableNotFound(n) => ErrorKind::FunctionOrVariableNotFound(
                n@,
            ),
            ErrorHandler::UnknownToken(t) => ErrorKind::UnknownToken(t@),
            ErrorHandler::UnexpectedToken(e, f) => ErrorKind::UnexpectedToken(e@, f@),
            ErrorHandler::ReturnOutsideFunction => ErrorKind::ReturnOutsideFunction,
            ErrorHandler::UnexpectedEndOfProgram => ErrorKind::UnexpectedEndOfProgram,
            ErrorHandler::VariableAlreadyExists(n) => ErrorKind::VariableAlreadyExists(n@),
            ErrorHandler::StackOverflow => ErrorKind::StackOverflow,
            ErrorHandler::NumberOutOfRange => ErrorKind::NumberOutOfRange,
            ErrorHandler::LoopLimitExceeded => ErrorKind::LoopLimitExceeded,
            ErrorHandler::ExitRequested(c) => ErrorKind::ExitRequested(*c as int),
        }
    }
}

/// The one-line diagnostic of an error. An exit request has none of
/// its own: its line only names the request.
pub open spec fn message(e: ErrorKind) -> Seq<char> {
    match e {
        ErrorKind::NoProgram => "No program to run!"@,
        ErrorKind::DivisionByZero => "Division by zero!"@,
        ErrorKind::TooManyArguments(f) => "Too many arguments for function: "@ + f + "!"@,
        ErrorKind::TooFewArguments(f) => "Too few arguments for function: "@ + f + "!"@,
        ErrorKind::SyntaxError(d) => "Syntax error: "@ + d,
        ErrorKind::ParseError(d) => "Parse error: "@ + d,
        ErrorKind::TypeError(e, f) => "Type error: expected "@ + e + ", found "@ + f,
        ErrorKind::VariableNotFound(n) => "Variable not found: "@ + n,
        ErrorKind::FunctionNotFound(n) => "Function not found: "@ + n,
        ErrorKind::FunctionOrVariableNotFound(n) => "Function or variable not found: "@ + n,
        ErrorKind::UnknownToken(t) => "Unknown token: "@ + t,
        ErrorKind::UnexpectedToken(e, f) => "Unexpected token: expected "@ + e + ", found "@ + f,
        ErrorKind::ReturnOutsideFunction => "Return statement outside function!"@,
        ErrorKind::UnexpectedEndOfProgram => "Unexpected end of program!"@,
        ErrorKind::VariableAlreadyExists(n) => "Variable already exists: "@ + n,
        ErrorKind::StackOverflow => "Stack overflow!"@,
        ErrorKind::NumberOutOfRange => "Number out of range!"@,
        ErrorKind::LoopLimitExceeded => "Loop limit exceeded!"@,
        ErrorKind::ExitRequested(c) => "Exit requested"@,
    }
}

impl ErrorHandler {
    /// The error's diagnostic line.
    pub fn to_string(&self) -> (s: String)
        ensures
            s@ == message(self@),
    {
        match self {
            ErrorHandler::NoProgram => String::from_str("No program to run!"),
            ErrorHandler::DivisionByZero => String::from_str("Division by zero!"),
            ErrorHandler::TooManyArguments(f) => {
                let mut s = join2("Too many arguments for function: ", f.as_str());
                s.append("!");
                s
            },
            ErrorHandler::TooFewArguments(f) => {
                let mut s = join2("Too few arguments for function: ", f.as_str());
                s.append("!");
                s
            },
            ErrorHandler::SyntaxError(d) => join2("Syntax error: ", d.as_str()),
            ErrorHandler::ParseError(d) => join2("Parse error: ", d.as_str()),
            ErrorHandler::TypeError(e, f) => {
                let mut s = join2("Type error: expected ", e.as_str());
                s.append(", found ");
                s.append(f.as_str());
                s
            },
            ErrorHandler::VariableNotFound(n) => join2("Variable not found: ", n.as_str()),
            ErrorHandler::FunctionNotFound(n) => join2("Function not found: ", n.as_str()),
            ErrorHandler::FunctionOrVariableNotFound(n) => join2(
                "Function or variable not found: ",
                n.as_str(),
            ),
            ErrorHandler::UnknownToken(t) => join2("Unknown token: ", t.as_str()),
            ErrorHandler::UnexpectedToken(e, f) => {
                let mut s = join2("Unexpected token: expected ", e.as_str());
                s.append(", found ");
                s.append(f.as_str());
                s
            },
            ErrorHandler::ReturnOutsideFunction => String::from_str(
                "Return statement outside function!",
            ),
            ErrorHandler::UnexpectedEndOfProgram => String::from_str("Unexpected end of program!"),
            ErrorHandler::VariableAlreadyExists(n) => join2(
                "Variable already exists: ",
                n.as_str(),
            ),
            ErrorHandler::StackOverflow => String::from_str("Stack overflow!"),
            ErrorHandler::NumberOutOfRange => String::from_str("Number out of range!"),
            ErrorHandler::LoopLimitExceeded => String::from_str("Loop limit exceeded!"),
            ErrorHandler::ExitRequested(_) => String::from_str("Exit requested"),
        }
    }
}

} // verus!
