//! The values that a program computes with.

use vstd::prelude::*;
use crate::error_handler::{ErrorHandler, ErrorKind};
use crate::number::{number_text, Number};

verus! {

/// A value at run time: a number or a text. `true` is the number one,
/// `false` the number zero.
#[derive(Debug, PartialEq, Eq)]
pub enum VariableValue {
    Number(Number),
    Text(String),
}

/// What a [`VariableValue`] says: a number by its units, a text by its
/// characters.
pub enum Value {
    Number(int),
    Text(Seq<char>),
}

impl View for VariableValue {
    type V = Value;

    open spec fn view(&self) -> Value {
        match self {
            VariableValue::Number(n) => Value::Number(n@),
            VariableValue::Text(t) => Value::Text(t@),
        }
    }
}

/// The number that a value holds; a text is no number.
pub open spec fn number_of(v: Value) -> Result<int, ErrorKind> {
    match v {
        Value::Number(n) => Ok(n),
        Value::Text(_) => Err(ErrorKind::ParseError("Expected a number"@)),
    }
}

/// The text that a value holds; a number is no text.
pub open spec fn text_of(v: Value) -> Result<Seq<char>, ErrorKind> {
    match v {
        Value::Number(_) => Err(ErrorKind::ParseError("Expected a text"@)),
        Value::Text(t) => Ok(t),
    }
}

/// How a value is written out.
pub open spec fn value_text(v: Value) -> Seq<char> {
    match v {
        Value::Number(n) => number_text(n),
        Value::Text(t) => t,
    }
}

impl VariableValue {
    /// The number held, or an error for a text.
    pub fn as_number(&self) -> (r: Result<Number, ErrorHandler>)
        ensures
            r matches Ok(n) ==> number_of(self@) == Ok::<int, ErrorKind>(n@),
            r matches Err(e) ==> number_of(self@) == Err::<int, ErrorKind>(e@),
    {
        match self {
            VariableValue::Number(n) => Ok(*n),
            VariableValue::Text(_) => Err(
                ErrorHandler::ParseError(String::from_str("Expected a number")),
            ),
        }
    }

    /// The text held, or an error for a number.
    pub fn as_text(&self) -> (r: Result<&String, ErrorHandler>)
        ensures
            r matches Ok(t) ==> text_of(self@) == Ok::<Seq<char>, ErrorKind>(t@),
            r matches Err(e) ==> text_of(self@) == Err::<Seq<char>, ErrorKind>(e@),
    {
        match self {
            VariableValue::Number(_) => Err(
                ErrorHandler::ParseError(String::from_str("Expected a text")),
            ),
            VariableValue::Text(t) => Ok(t),
        }
    }

    /// The value written out.
    pub fn to_string(&self) -> (s: String)
        ensures
            s@ == value_text(self@),
    {
        match self {
            VariableValue::Number(n) => n.to_string(),
            VariableValue::Text(t) => t.clone(),
        }
    }
}

impl Clone for VariableValue {
    fn clone(&self) -> (copy: Self)
        ensures
            copy@ == self@,
    {
        match self {
            VariableValue::Number(n) => VariableValue::Number(*n),
            VariableValue::Text(t) => VariableValue::Text(t.clone()),
        }
    }
}

} // verus!
