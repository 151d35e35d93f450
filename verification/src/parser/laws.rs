//! What holds of every parse.

use vstd::prelude::*;
use crate::ast::Expr;
use crate::checker::lemma_int_and_float;
use crate::env::{find, lookup};
use crate::error_handler::ErrorKind;
use crate::number::SCALE;
use crate::parser::grammar::{
    at,
    checked_value,
    is_name,
    parse_assignment,
    parse_atom,
    parse_del,
    parse_let,
    parse_stmt,
    Symbols,
};

verus! {

/// A name that is not declared and is not called is refused where an
/// operand is expected.
pub proof fn law_undeclared_reference(toks: Seq<Seq<char>>, pos: int, table: Symbols)
    requires
        0 <= pos < toks.len(),
        is_name(toks[pos]),
        !at(toks, pos + 1, "("@),
        find(table.vars, toks[pos]) is None,
    ensures
        parse_atom(toks, pos, table) == Err::<(Expr, int), ErrorKind>(
            ErrorKind::VariableNotFound(toks[pos]),
        ),
{
    reveal_strlit("(");
    reveal_strlit("true");
    reveal_strlit("false");
    assert("("@[0] == '(');
}

/// A name that is not declared is refused as the target of an
/// assignment and of a deletion.
pub proof fn law_undeclared_target(toks: Seq<Seq<char>>, pos: int, table: Symbols)
    requires
        0 <= pos,
        pos + 1 < toks.len(),
        is_name(toks[pos]),
        is_name(toks[pos + 1]),
    ensures
        find(table.vars, toks[pos]) is None ==> parse_assignment(toks, pos, table) is Err
            && parse_assignment(toks, pos, table)->Err_0 == ErrorKind::VariableNotFound(
            toks[pos],
        ),
        find(table.vars, toks[pos + 1]) is None ==> parse_del(toks, pos, table) is Err
            && parse_del(toks, pos, table)->Err_0 == ErrorKind::VariableNotFound(toks[pos + 1]),
{
}

/// A second declaration of a name is refused.
pub proof fn law_declared_twice(toks: Seq<Seq<char>>, pos: int, table: Symbols)
    requires
        0 <= pos,
        pos + 1 < toks.len(),
        is_name(toks[pos + 1]),
        find(table.vars, toks[pos + 1]) is Some,
    ensures
        parse_let(toks, pos, table) is Err,
        parse_let(toks, pos, table)->Err_0 == ErrorKind::VariableAlreadyExists(toks[pos + 1]),
{
}

/// `return` is refused outside the body of a function.
pub proof fn law_return_outside_function(toks: Seq<Seq<char>>, pos: int, table: Symbols)
    requires
        0 <= pos < toks.len(),
        toks[pos] == "return"@,
    ensures
        parse_stmt(toks, pos, table, false) is Err,
        parse_stmt(toks, pos, table, false)->Err_0 == ErrorKind::ReturnOutsideFunction,
{
    reveal_strlit("return");
    reveal_strlit("let");
    reveal_strlit("del");
    assert("return"@.len() == 6);
    assert("let"@.len() == 3);
    assert("del"@.len() == 3);
}

/// A variable of type `int` refuses a `float` literal, and a reference
/// to a variable that is known to hold one; a variable of type `float`
/// takes an `int` literal as the `float` literal of the same value.
pub proof fn law_int_refuses_float(table: Symbols, i: int, units: int, other: Seq<char>)
    ensures
        checked_value(table, "int"@, Expr::Float(units)) == Err::<(Expr, Option<Expr>), ErrorKind>(
            ErrorKind::TypeError("int"@, "float"@),
        ),
        lookup(table.vars, other) matches Some(entry) && entry.value == Some(Expr::Float(units))
            ==> checked_value(table, "int"@, Expr::VarRef(other)) == Err::<
            (Expr, Option<Expr>),
            ErrorKind,
        >(ErrorKind::TypeError("int"@, "float"@)),
        checked_value(table, "float"@, Expr::Int(i)) == Ok::<(Expr, Option<Expr>), ErrorKind>(
            (Expr::Float(i * SCALE), Some(Expr::Float(i * SCALE))),
        ),
{
    lemma_int_and_float(i, units);
}

} // verus!
