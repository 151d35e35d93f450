//! The check of a literal against the type of the variable that takes
//! it.

use vstd::prelude::*;
use crate::ast::{ASTNode, Expr};
use crate::error_handler::{ErrorHandler, ErrorKind};
use crate::number::{Number, SCALE};
use crate::text::{join2, same_text};

verus! {

/// The name of the type of a literal; `None` for every other node.
pub open spec fn literal_type(e: Expr) -> Option<Seq<char>> {
    match e {
        Expr::Int(_) => Some("int"@),
        Expr::Float(_) => Some("float"@),
        Expr::Str(_) => Some("string"@),
        Expr::Boolean(_) => Some("bool"@),
        _ => None,
    }
}

/// Whether variables can be declared with the type of this name.
pub open spec fn is_declarable(typ: Seq<char>) -> bool {
    typ == "int"@ || typ == "float"@ || typ == "string"@ || typ == "bool"@
}

/// What a declaration of type `typ` makes of its initializer: a literal
/// of another type is refused, but an `int` literal becomes the `float`
/// literal of the same value; a node that is no literal stays as it is.
pub open spec fn checked_expr(typ: Seq<char>, e: Expr) -> Result<Expr, ErrorKind> {
    if !is_declarable(typ) {
        Err(ErrorKind::ParseError("Unknown type: "@ + typ))
    } else {
        match literal_type(e) {
            None => Ok(e),
            Some(found) => if found == typ {
                Ok(e)
            } else if typ == "float"@ && e is Int {
                Ok(Expr::Float(e->Int_0 * SCALE))
            } else {
                Err(ErrorKind::TypeError(typ, found))
            },
        }
    }
}

/// The name of the type of `expr`, where it is a literal.
pub fn literal_type_of(expr: &ASTNode) -> (r: Option<&'static str>)
    ensures
        r matches Some(s) ==> literal_type(expr@) == Some(s@),
        r is None ==> literal_type(expr@) is None,
{
    match expr {
        ASTNode::Int(_) => Some("int"),
        ASTNode::Float(_) => Some("float"),
        ASTNode::String(_) => Some("string"),
        ASTNode::Boolean(_) => Some("bool"),
        _ => None,
    }
}

/// Checks the initializer of a declaration of type `typ`.
pub fn check_type(typ: &str, expr: ASTNode) -> (r: Result<ASTNode, ErrorHandler>)
    ensures
        r matches Ok(n) ==> checked_expr(typ@, expr@) == Ok::<Expr, ErrorKind>(n@),
        r matches Err(e) ==> checked_expr(typ@, expr@) == Err::<Expr, ErrorKind>(e@),
{
    let known = same_text(typ, "int") || same_text(typ, "float") || same_text(typ, "string")
        || same_text(typ, "bool");
    if !known {
        return Err(ErrorHandler::ParseError(join2("Unknown type: ", typ)));
    }
    match literal_type_of(&expr) {
        None => Ok(expr),
        Some(found) => {
            if same_text(found, typ) {
                Ok(expr)
            } else if same_text(typ, "float") {
                match expr {
                    ASTNode::Int(i) => Ok(ASTNode::Float(Number::from_int(i))),
                    _ => Err(
                        ErrorHandler::TypeError(String::from_str(typ), String::from_str(found)),
                    ),
                }
            } else {
                Err(ErrorHandler::TypeError(String::from_str(typ), String::from_str(found)))
            }
        },
    }
}

/// A declaration of type `int` refuses every `float` literal, and a
/// declaration of type `float` turns every `int` literal into the
/// `float` literal of the same value.
pub proof fn lemma_int_and_float(i: int, units: int)
    ensures
        checked_expr("int"@, Expr::Float(units)) == Err::<Expr, ErrorKind>(
            ErrorKind::TypeError("int"@, "float"@),
        ),
        checked_expr("float"@, Expr::Int(i)) == Ok::<Expr, ErrorKind>(Expr::Float(i * SCALE)),
{
    reveal_strlit("int");
    reveal_strlit("float");
    assert("int"@.len() == 3);
    assert("float"@.len() == 5);
}

} // verus!
