//! The parser: it reads the tokens of a program into a tree, checks
//! declarations and assignments on the way, and keeps the table of the
//! names declared so far. It does what [`grammar`] says.

use vstd::prelude::*;
use crate::ast::{clone_node, clone_nodes, nodes_view, arms_view, params_view, ASTNode, BinaryOp, Expr, UnaryOp};
use crate::checker::{check_type, literal_type_of};
use crate::env::{Table};
use crate::error_handler::{ErrorHandler, ErrorKind};
use crate::interp::builtins::find_builtin;
use crate::literal::{read_number, ReadNumber};
use crate::parser::grammar::{
    canonical_params,
    checked_value,
    declare_params,
    known_value,
    parse_arm,
    parse_args,
    parse_assignment,
    parse_atom,
    parse_block,
    parse_cases,
    parse_condition,
    parse_del,
    parse_elifs,
    parse_expr,
    parse_expr_stmt,
    parse_for,
    parse_func,
    parse_if,
    parse_let,
    parse_params,
    parse_power,
    parse_program,
    parse_return,
    parse_stmt,
    parse_stmts,
    parse_switch,
    parse_tier,
    parse_tier_rest,
    parse_tokens,
    parse_unary,
    parse_while,
    typed_params,
    ParsedArms,
    ParsedBody,
    ParsedExpr,
    ParsedStmt,
    Symbols,
};
use crate::parser::tokens::{
    expect_ident,
    expect_token,
    is_name_token,
    operator_of,
    quoted_text,
    token_is,
};
use crate::text::{same_text, texts_view};
use crate::types::Type;
use crate::var_func::{clone_named_params, named_params_view, Function, VariableInfo};

pub mod accepted;
pub mod grammar;
pub mod laws;
pub mod reread;
pub mod round_trip;
pub mod tokens;
pub mod words;

verus! {

/// The names declared so far: the variables with their types and last
/// known literals, and the functions.
#[derive(Debug)]
pub struct SymbolTable {
    pub variables: Table<VariableInfo>,
    pub functions: Table<Function>,
}

impl View for SymbolTable {
    type V = Symbols;

    open spec fn view(&self) -> Symbols {
        Symbols { vars: self.variables@, funcs: self.functions@ }
    }
}

/// A copy of a table of variables.
fn clone_variable_table(table: &Table<VariableInfo>) -> (copy: Table<VariableInfo>)
    ensures
        copy@ == table@,
{
    let mut copy: Table<VariableInfo> = Table { entries: Vec::new() };
    let mut i: usize = 0;
    while i < table.entries.len()
        invariant
            i <= table.entries.len(),
            copy.entries.len() == i,
            forall|k: int| 0 <= k < i ==> copy@[k] == table@[k],
        decreases table.entries.len() - i,
    {
        let name = table.entries[i].0.clone();
        let value = table.entries[i].1.clone();
        copy.entries.push((name, value));
        i = i + 1;
    }
    assert(copy@ =~= table@);
    copy
}

/// A copy of a table of functions.
fn clone_function_table(table: &Table<Function>) -> (copy: Table<Function>)
    ensures
        copy@ == table@,
{
    let mut copy: Table<Function> = Table { entries: Vec::new() };
    let mut i: usize = 0;
    while i < table.entries.len()
        invariant
            i <= table.entries.len(),
            copy.entries.len() == i,
            forall|k: int| 0 <= k < i ==> copy@[k] == table@[k],
        decreases table.entries.len() - i,
    {
        let name = table.entries[i].0.clone();
        let value = table.entries[i].1.clone();
        copy.entries.push((name, value));
        i = i + 1;
    }
    assert(copy@ =~= table@);
    copy
}

impl SymbolTable {
    /// A table with no name in it.
    pub fn new() -> (t: Self)
        ensures
            t@ == (Symbols { vars: Seq::empty(), funcs: Seq::empty() }),
    {
        SymbolTable { variables: Table::new(), functions: Table::new() }
    }
}

impl Clone for SymbolTable {
    fn clone(&self) -> (copy: Self)
        ensures
            copy@ == self@,
    {
        SymbolTable {
            variables: clone_variable_table(&self.variables),
            functions: clone_function_table(&self.functions),
        }
    }
}

/// Whether the result of parsing an expression from `pos` is what the
/// grammar says.
pub open spec fn expr_agrees(
    r: Result<(ASTNode, usize), ErrorHandler>,
    m: ParsedExpr,
    pos: usize,
    len: nat,
) -> bool {
    match r {
        Ok((node, p)) => m == Ok::<(Expr, int), ErrorKind>((node@, p as int)) && pos < p <= len,
        Err(e) => m == Err::<(Expr, int), ErrorKind>(e@),
    }
}

/// Whether the result of parsing a statement from `pos` is what the
/// grammar says.
pub open spec fn stmt_agrees(
    r: Result<(ASTNode, usize, SymbolTable), ErrorHandler>,
    m: ParsedStmt,
    pos: usize,
    len: nat,
) -> bool {
    match r {
        Ok((node, p, t)) => m == Ok::<(Expr, int, Symbols), ErrorKind>((node@, p as int, t@))
            && pos < p <= len,
        Err(e) => m == Err::<(Expr, int, Symbols), ErrorKind>(e@),
    }
}

/// Whether the result of parsing a list of statements is what the
/// grammar says.
pub open spec fn body_agrees(
    r: Result<(Vec<ASTNode>, usize, SymbolTable), ErrorHandler>,
    m: ParsedBody,
    pos: usize,
    len: nat,
) -> bool {
    match r {
        Ok((nodes, p, t)) => m == Ok::<(Seq<Expr>, int, Symbols), ErrorKind>(
            (nodes_view(nodes@), p as int, t@),
        ) && pos < p <= len,
        Err(e) => m == Err::<(Seq<Expr>, int, Symbols), ErrorKind>(e@),
    }
}

/// Parses an expression of precedence `level` or tighter.
pub fn parse_level(tokens: &Vec<String>, pos: usize, table: &SymbolTable, level: u8) -> (r: Result<
    (ASTNode, usize),
    ErrorHandler,
>)
    ensures
        expr_agrees(
            r,
            parse_tier(texts_view(tokens@), pos as int, table@, level as int),
            pos,
            tokens@.len(),
        ),
    decreases tokens.len() - pos,
        if level < 4 {
            20 - 2 * level
        } else {
            11
        },
{
    let ghost toks = texts_view(tokens@);
    if pos >= tokens.len() {
        return Err(ErrorHandler::UnexpectedEndOfProgram);
    }
    if level >= 4 {
        return parse_exponent(tokens, pos, table);
    }
    let (first, start) = match parse_level(tokens, pos, table, level + 1) {
        Ok(x) => x,
        Err(e) => {
            return Err(e);
        },
    };
    let mut lhs = first;
    let mut p: usize = start;
    loop
        invariant
            pos < p <= tokens.len(),
            level < 4,
            toks == texts_view(tokens@),
            parse_tier(toks, pos as int, table@, level as int) == parse_tier_rest(
                toks,
                p as int,
                table@,
                level as int,
                lhs@,
            ),
        decreases tokens.len() - p,
    {
        if p >= tokens.len() {
            return Ok((lhs, p));
        }
        assert(toks[p as int] == tokens[p as int]@);
        let op = match operator_of(level, tokens[p].as_str()) {
            Some(op) => op,
            None => {
                return Ok((lhs, p));
            },
        };
        let (rhs, q) = match parse_level(tokens, p + 1, table, level + 1) {
            Ok(x) => x,
            Err(e) => {
                return Err(e);
            },
        };
        lhs = ASTNode::Binary(op, Box::new(lhs), Box::new(rhs));
        p = q;
    }
}

/// Parses a power.
fn parse_exponent(tokens: &Vec<String>, pos: usize, table: &SymbolTable) -> (r: Result<
    (ASTNode, usize),
    ErrorHandler,
>)
    requires
        pos <= tokens.len(),
    ensures
        expr_agrees(
            r,
            parse_power(texts_view(tokens@), pos as int, table@),
            pos,
            tokens@.len(),
        ),
    decreases tokens.len() - pos, 10int,
{
    if pos >= tokens.len() {
        return Err(ErrorHandler::UnexpectedEndOfProgram);
    }
    let (base, p) = match parse_signed(tokens, pos, table) {
        Ok(x) => x,
        Err(e) => {
            return Err(e);
        },
    };
    if token_is(tokens, p, 0, "^") {
        match parse_exponent(tokens, p + 1, table) {
            Ok((exp, q)) => Ok((ASTNode::Binary(BinaryOp::Pow, Box::new(base), Box::new(exp)), q)),
            Err(e) => Err(e),
        }
    } else {
        Ok((base, p))
    }
}

/// Parses an operand with the signs before it.
fn parse_signed(tokens: &Vec<String>, pos: usize, table: &SymbolTable) -> (r: Result<
    (ASTNode, usize),
    ErrorHandler,
>)
    requires
        pos <= tokens.len(),
    ensures
        expr_agrees(
            r,
            parse_unary(texts_view(tokens@), pos as int, table@),
            pos,
            tokens@.len(),
        ),
    decreases tokens.len() - pos, 9int,
{
    if pos >= tokens.len() {
        return Err(ErrorHandler::UnexpectedEndOfProgram);
    }
    if token_is(tokens, pos, 0, "-") {
        match parse_signed(tokens, pos + 1, table) {
            Ok((e, p)) => Ok((ASTNode::Unary(UnaryOp::Neg, Box::new(e)), p)),
            Err(e) => Err(e),
        }
    } else if token_is(tokens, pos, 0, "!") {
        match parse_signed(tokens, pos + 1, table) {
            Ok((e, p)) => Ok((ASTNode::Unary(UnaryOp::Not, Box::new(e)), p)),
            Err(e) => Err(e),
        }
    } else {
        parse_operand(tokens, pos, table)
    }
}

/// Parses an expression in brackets, a literal, a call or a variable.
fn parse_operand(tokens: &Vec<String>, pos: usize, table: &SymbolTable) -> (r: Result<
    (ASTNode, usize),
    ErrorHandler,
>)
    requires
        pos <= tokens.len(),
    ensures
        expr_agrees(
            r,
            parse_atom(texts_view(tokens@), pos as int, table@),
            pos,
            tokens@.len(),
        ),
    decreases tokens.len() - pos, 8int,
{
    let ghost toks = texts_view(tokens@);
    if pos >= tokens.len() {
        return Err(ErrorHandler::UnexpectedEndOfProgram);
    }
    assert(toks[pos as int] == tokens[pos as int]@);
    let t: &String = &tokens[pos];
    if same_text(t.as_str(), "(") {
        let (e, p) = match parse_level(tokens, pos + 1, table, 0) {
            Ok(x) => x,
            Err(e) => {
                return Err(e);
            },
        };
        return match expect_token(tokens, p, 0, ")") {
            Ok(q) => Ok((e, q)),
            Err(e) => Err(e),
        };
    }
    if same_text(t.as_str(), "true") {
        return Ok((ASTNode::Boolean(true), pos + 1));
    }
    if same_text(t.as_str(), "false") {
        return Ok((ASTNode::Boolean(false), pos + 1));
    }
    match quoted_text(t.as_str()) {
        Some(s) => {
            return Ok((ASTNode::String(s), pos + 1));
        },
        None => {},
    }
    if is_name_token(t.as_str()) {
        if token_is(tokens, pos, 1, "(") {
            if find_builtin(t.as_str()).is_none() && table.functions.position(
                t.as_str(),
            ).is_none() {
                return Err(ErrorHandler::FunctionNotFound(t.clone()));
            }
            if token_is(tokens, pos, 2, ")") {
                let args: Vec<ASTNode> = Vec::new();
                assert(nodes_view(args@) =~= Seq::empty());
                return Ok((ASTNode::FuncCall(t.clone(), args), pos + 3));
            }
            let before: Vec<ASTNode> = Vec::new();
            assert(nodes_view(before@) =~= Seq::empty());
            return match parse_arguments(tokens, pos + 2, table, before) {
                Ok((args, p)) => Ok((ASTNode::FuncCall(t.clone(), args), p)),
                Err(e) => Err(e),
            };
        }
        if table.variables.position(t.as_str()).is_none() {
            return Err(ErrorHandler::VariableNotFound(t.clone()));
        }
        return Ok((ASTNode::VarRef(t.clone()), pos + 1));
    }
    match read_number(t.as_str()) {
        ReadNumber::Int(i) => Ok((ASTNode::Int(i), pos + 1)),
        ReadNumber::Float(n) => Ok((ASTNode::Float(n), pos + 1)),
        ReadNumber::OutOfRange => Err(ErrorHandler::NumberOutOfRange),
        ReadNumber::NotANumber => Err(ErrorHandler::UnknownToken(t.clone())),
    }
}

/// Parses the arguments of a call up to the closing bracket.
fn parse_arguments(
    tokens: &Vec<String>,
    pos: usize,
    table: &SymbolTable,
    before: Vec<ASTNode>,
) -> (r: Result<(Vec<ASTNode>, usize), ErrorHandler>)
    requires
        pos <= tokens.len(),
    ensures
        ({
            let m = parse_args(texts_view(tokens@), pos as int, table@, nodes_view(before@));
            match r {
                Ok((args, p)) => m == Ok::<(Seq<Expr>, int), ErrorKind>(
                    (nodes_view(args@), p as int),
                ) && pos < p <= tokens.len(),
                Err(e) => m == Err::<(Seq<Expr>, int), ErrorKind>(e@),
            }
        }),
    decreases tokens.len() - pos, 40int,
{
    let (e, p) = match parse_level(tokens, pos, table, 0) {
        Ok(x) => x,
        Err(e) => {
            return Err(e);
        },
    };
    let mut args = before;
    let ghost earlier = nodes_view(args@);
    args.push(e);
    assert(nodes_view(args@) =~= earlier.push(e@));
    if token_is(tokens, p, 0, ",") {
        parse_arguments(tokens, p + 1, table, args)
    } else {
        match expect_token(tokens, p, 0, ")") {
            Ok(q) => Ok((args, q)),
            Err(e) => Err(e),
        }
    }
}

/// Parses an expression.
pub fn parse_expression(tokens: &Vec<String>, pos: usize, table: &SymbolTable) -> (r: Result<
    (ASTNode, usize),
    ErrorHandler,
>)
    ensures
        expr_agrees(r, parse_expr(texts_view(tokens@), pos as int, table@), pos, tokens@.len()),
{
    parse_level(tokens, pos, table, 0)
}

/// Whether the result of parsing a list of arms is what the grammar
/// says.
pub open spec fn arms_agree(
    r: Result<(Vec<(ASTNode, Vec<ASTNode>)>, usize, SymbolTable), ErrorHandler>,
    m: ParsedArms,
    pos: usize,
    len: nat,
) -> bool {
    match r {
        Ok((arms, p, t)) => m == Ok::<(Seq<(Expr, Seq<Expr>)>, int, Symbols), ErrorKind>(
            (arms_view(arms@), p as int, t@),
        ) && pos <= p <= len,
        Err(e) => m == Err::<(Seq<(Expr, Seq<Expr>)>, int, Symbols), ErrorKind>(e@),
    }
}

/// Parses an expression in round brackets.
fn parse_bracketed(tokens: &Vec<String>, pos: usize, table: &SymbolTable) -> (r: Result<
    (ASTNode, usize),
    ErrorHandler,
>)
    requires
        pos <= tokens.len(),
    ensures
        expr_agrees(
            r,
            parse_condition(texts_view(tokens@), pos as int, table@),
            pos,
            tokens@.len(),
        ),
{
    let m1 = match expect_token(tokens, pos, 0, "(") {
        Ok(p) => p,
        Err(e) => {
            return Err(e);
        },
    };
    let (cond, m2) = match parse_expression(tokens, m1, table) {
        Ok(x) => x,
        Err(e) => {
            return Err(e);
        },
    };
    match expect_token(tokens, m2, 0, ")") {
        Ok(m3) => Ok((cond, m3)),
        Err(e) => Err(e),
    }
}

/// The literal that a variable is known to hold, for a reference to
/// such a variable; a copy of every other node.
fn fold_known(table: &SymbolTable, value: &ASTNode) -> (folded: ASTNode)
    ensures
        folded@ == known_value(table@, value@),
{
    match value {
        ASTNode::VarRef(name) => match table.variables.position(name.as_str()) {
            Some(i) => match &table.variables.value_at(i).value {
                Some(v) => clone_node(v),
                None => clone_node(value),
            },
            None => clone_node(value),
        },
        _ => clone_node(value),
    }
}

/// Checks a value against the type `typ` of the variable that takes it.
fn check_value(table: &SymbolTable, typ: &str, value: ASTNode) -> (r: Result<
    (ASTNode, Option<ASTNode>),
    ErrorHandler,
>)
    ensures
        r matches Ok((node, known)) ==> checked_value(table@, typ@, value@) == Ok::<
            (Expr, Option<Expr>),
            ErrorKind,
        >(
            (
                node@,
                match known {
                    Some(k) => Some(k@),
                    None => None,
                },
            ),
        ),
        r matches Err(e) ==> checked_value(table@, typ@, value@) == Err::<
            (Expr, Option<Expr>),
            ErrorKind,
        >(e@),
{
    let folded = fold_known(table, &value);
    let is_literal = literal_type_of(&value).is_some();
    match check_type(typ, folded) {
        Err(e) => Err(e),
        Ok(c) => {
            let known = if literal_type_of(&c).is_some() {
                Some(clone_node(&c))
            } else {
                None
            };
            let node = if is_literal {
                c
            } else {
                value
            };
            Ok((node, known))
        },
    }
}

/// Parses `let name : type = value ;`.
fn parse_let_stmt(tokens: &Vec<String>, pos: usize, table: SymbolTable) -> (r: Result<
    (ASTNode, usize, SymbolTable),
    ErrorHandler,
>)
    requires
        pos < tokens.len(),
    ensures
        stmt_agrees(r, parse_let(texts_view(tokens@), pos as int, table@), pos, tokens@.len()),
{
    let mut table = table;
    let name = match expect_ident(tokens, pos, 1) {
        Ok(n) => n,
        Err(e) => {
            return Err(e);
        },
    };
    if table.variables.position(name.as_str()).is_some() {
        return Err(ErrorHandler::VariableAlreadyExists(name));
    }
    match expect_token(tokens, pos, 2, ":") {
        Ok(_) => {},
        Err(e) => {
            return Err(e);
        },
    }
    let typ = match expect_ident(tokens, pos, 3) {
        Ok(n) => n,
        Err(e) => {
            return Err(e);
        },
    };
    match expect_token(tokens, pos, 4, "=") {
        Ok(_) => {},
        Err(e) => {
            return Err(e);
        },
    }
    let (init, p) = match parse_expression(tokens, pos + 5, &table) {
        Ok(x) => x,
        Err(e) => {
            return Err(e);
        },
    };
    let q = match expect_token(tokens, p, 0, ";") {
        Ok(q) => q,
        Err(e) => {
            return Err(e);
        },
    };
    let (node, known) = match check_value(&table, typ.as_str(), init) {
        Ok(x) => x,
        Err(e) => {
            return Err(e);
        },
    };
    let tag = Type::to_type(typ.as_str());
    table.variables.bind(name.clone(), VariableInfo::new(name.clone(), typ, known));
    Ok((ASTNode::Let(name, tag, Box::new(node)), q, table))
}

/// Parses `name = value`, without the `;`.
fn parse_assign(tokens: &Vec<String>, pos: usize, table: SymbolTable) -> (r: Result<
    (ASTNode, usize, SymbolTable),
    ErrorHandler,
>)
    requires
        pos <= tokens.len(),
    ensures
        stmt_agrees(
            r,
            parse_assignment(texts_view(tokens@), pos as int, table@),
            pos,
            tokens@.len(),
        ),
{
    let mut table = table;
    let name = match expect_ident(tokens, pos, 0) {
        Ok(n) => n,
        Err(e) => {
            return Err(e);
        },
    };
    let typ = match table.variables.position(name.as_str()) {
        Some(i) => table.variables.value_at(i).typ.clone(),
        None => {
            return Err(ErrorHandler::VariableNotFound(name));
        },
    };
    match expect_token(tokens, pos, 1, "=") {
        Ok(_) => {},
        Err(e) => {
            return Err(e);
        },
    }
    let (value, p) = match parse_expression(tokens, pos + 2, &table) {
        Ok(x) => x,
        Err(e) => {
            return Err(e);
        },
    };
    let (node, known) = match check_value(&table, typ.as_str(), value) {
        Ok(x) => x,
        Err(e) => {
            return Err(e);
        },
    };
    table.variables.bind(name.clone(), VariableInfo::new(name.clone(), typ, known));
    Ok((ASTNode::Assign(name, Box::new(node)), p, table))
}

/// Parses `del name ;`.
fn parse_del_stmt(tokens: &Vec<String>, pos: usize, table: SymbolTable) -> (r: Result<
    (ASTNode, usize, SymbolTable),
    ErrorHandler,
>)
    requires
        pos < tokens.len(),
    ensures
        stmt_agrees(r, parse_del(texts_view(tokens@), pos as int, table@), pos, tokens@.len()),
{
    let mut table = table;
    let name = match expect_ident(tokens, pos, 1) {
        Ok(n) => n,
        Err(e) => {
            return Err(e);
        },
    };
    if table.variables.position(name.as_str()).is_none() {
        return Err(ErrorHandler::VariableNotFound(name));
    }
    let q = match expect_token(tokens, pos, 2, ";") {
        Ok(q) => q,
        Err(e) => {
            return Err(e);
        },
    };
    let _ = table.variables.unbind(name.as_str());
    Ok((ASTNode::Del(name), q, table))
}

/// Parses `return value ;`.
fn parse_return_stmt(tokens: &Vec<String>, pos: usize, table: SymbolTable, inside: bool) -> (r:
    Result<(ASTNode, usize, SymbolTable), ErrorHandler>)
    requires
        pos < tokens.len(),
    ensures
        stmt_agrees(
            r,
            parse_return(texts_view(tokens@), pos as int, table@, inside),
            pos,
            tokens@.len(),
        ),
{
    if !inside {
        return Err(ErrorHandler::ReturnOutsideFunction);
    }
    let (value, p) = match parse_expression(tokens, pos + 1, &table) {
        Ok(x) => x,
        Err(e) => {
            return Err(e);
        },
    };
    match expect_token(tokens, p, 0, ";") {
        Ok(q) => Ok((ASTNode::Return(Box::new(value)), q, table)),
        Err(e) => Err(e),
    }
}

/// Parses an expression as a statement.
fn parse_expression_stmt(tokens: &Vec<String>, pos: usize, table: SymbolTable) -> (r: Result<
    (ASTNode, usize, SymbolTable),
    ErrorHandler,
>)
    requires
        pos <= tokens.len(),
    ensures
        stmt_agrees(
            r,
            parse_expr_stmt(texts_view(tokens@), pos as int, table@),
            pos,
            tokens@.len(),
        ),
{
    let (e, p) = match parse_expression(tokens, pos, &table) {
        Ok(x) => x,
        Err(e) => {
            return Err(e);
        },
    };
    if token_is(tokens, p, 0, ";") {
        Ok((e, p + 1, table))
    } else {
        Ok((e, p, table))
    }
}

/// Parses the parameters of a function up to the closing bracket.
fn parse_parameters(tokens: &Vec<String>, pos: usize, before: Vec<(String, String)>) -> (r: Result<
    (Vec<(String, String)>, usize),
    ErrorHandler,
>)
    requires
        pos <= tokens.len(),
    ensures
        ({
            let m = parse_params(texts_view(tokens@), pos as int, named_params_view(before@));
            match r {
                Ok((params, p)) => m == Ok::<(Seq<(Seq<char>, Seq<char>)>, int), ErrorKind>(
                    (named_params_view(params@), p as int),
                ) && pos < p <= tokens.len(),
                Err(e) => m == Err::<(Seq<(Seq<char>, Seq<char>)>, int), ErrorKind>(e@),
            }
        }),
    decreases tokens.len() - pos,
{
    let name = match expect_ident(tokens, pos, 0) {
        Ok(n) => n,
        Err(e) => {
            return Err(e);
        },
    };
    match expect_token(tokens, pos, 1, ":") {
        Ok(_) => {},
        Err(e) => {
            return Err(e);
        },
    }
    let typ = match expect_ident(tokens, pos, 2) {
        Ok(n) => n,
        Err(e) => {
            return Err(e);
        },
    };
    let mut params = before;
    let ghost earlier = named_params_view(params@);
    params.push((name, typ));
    assert(named_params_view(params@) =~= earlier.push((name@, typ@)));
    if token_is(tokens, pos, 3, ",") {
        parse_parameters(tokens, pos + 4, params)
    } else {
        match expect_token(tokens, pos, 3, ")") {
            Ok(q) => Ok((params, q)),
            Err(e) => Err(e),
        }
    }
}

/// Declares each parameter as a variable whose value is not known.
fn declare_parameters(variables: &mut Table<VariableInfo>, params: &Vec<(String, String)>)
    ensures
        final(variables)@ == declare_params(old(variables)@, named_params_view(params@), 0),
{
    let ghost start = variables@;
    let ghost ps = named_params_view(params@);
    let mut i: usize = 0;
    while i < params.len()
        invariant
            i <= params.len(),
            ps == named_params_view(params@),
            declare_params(start, ps, 0) == declare_params(variables@, ps, i as int),
        decreases params.len() - i,
    {
        let name = params[i].0.clone();
        let typ = params[i].1.clone();
        variables.bind(name.clone(), VariableInfo::new(name, typ, None));
        i = i + 1;
    }
}

/// The parameters with the names of their types as they are kept.
fn canonical_parameters(params: &Vec<(String, String)>) -> (kept: Vec<(String, String)>)
    ensures
        named_params_view(kept@) == canonical_params(named_params_view(params@)),
{
    let mut kept: Vec<(String, String)> = Vec::new();
    let mut i: usize = 0;
    while i < params.len()
        invariant
            i <= params.len(),
            kept.len() == i,
            forall|k: int|
                0 <= k < i ==> (#[trigger] kept[k]).0@ == params[k].0@ && kept[k].1@
                    == crate::parser::grammar::canonical(params[k].1@),
        decreases params.len() - i,
    {
        kept.push((params[i].0.clone(), Type::to_type(params[i].1.as_str()).to_string()));
        i = i + 1;
    }
    assert(named_params_view(kept@) =~= canonical_params(named_params_view(params@)));
    kept
}

/// The parameters with their types by tag.
fn type_parameters(params: &Vec<(String, String)>) -> (typed: Vec<(String, Type)>)
    ensures
        params_view(typed@) == typed_params(named_params_view(params@)),
{
    let mut typed: Vec<(String, Type)> = Vec::new();
    let mut i: usize = 0;
    while i < params.len()
        invariant
            i <= params.len(),
            typed.len() == i,
            forall|k: int|
                0 <= k < i ==> (#[trigger] typed[k]).0@ == params[k].0@ && typed[k].1
                    == crate::types::type_of_name(params[k].1@),
        decreases params.len() - i,
    {
        typed.push((params[i].0.clone(), Type::to_type(params[i].1.as_str())));
        i = i + 1;
    }
    assert(params_view(typed@) =~= typed_params(named_params_view(params@)));
    typed
}

/// Parses the statement that starts at `pos`.
pub fn parse_statement(tokens: &Vec<String>, pos: usize, table: SymbolTable, inside: bool) -> (r:
    Result<(ASTNode, usize, SymbolTable), ErrorHandler>)
    ensures
        stmt_agrees(
            r,
            parse_stmt(texts_view(tokens@), pos as int, table@, inside),
            pos,
            tokens@.len(),
        ),
    decreases tokens.len() - pos, 50int,
{
    let ghost toks = texts_view(tokens@);
    if pos >= tokens.len() {
        return Err(ErrorHandler::UnexpectedEndOfProgram);
    }
    assert(toks[pos as int] == tokens[pos as int]@);
    let t: &String = &tokens[pos];
    if same_text(t.as_str(), "let") {
        parse_let_stmt(tokens, pos, table)
    } else if same_text(t.as_str(), "del") {
        parse_del_stmt(tokens, pos, table)
    } else if same_text(t.as_str(), "return") {
        parse_return_stmt(tokens, pos, table, inside)
    } else if same_text(t.as_str(), "if") {
        parse_if_stmt(tokens, pos, table, inside)
    } else if same_text(t.as_str(), "while") {
        parse_while_stmt(tokens, pos, table, inside)
    } else if same_text(t.as_str(), "for") {
        parse_for_stmt(tokens, pos, table, inside)
    } else if same_text(t.as_str(), "func") {
        parse_func_stmt(tokens, pos, table)
    } else if same_text(t.as_str(), "switch") {
        parse_switch_stmt(tokens, pos, table, inside)
    } else if is_name_token(t.as_str()) && token_is(tokens, pos, 1, "=") {
        match parse_assign(tokens, pos, table) {
            Err(e) => Err(e),
            Ok((node, p, t2)) => match expect_token(tokens, p, 0, ";") {
                Err(e) => Err(e),
                Ok(q) => Ok((node, q, t2)),
            },
        }
    } else {
        parse_expression_stmt(tokens, pos, table)
    }
}

/// Parses statements up to the closing brace.
fn parse_statements(
    tokens: &Vec<String>,
    pos: usize,
    table: SymbolTable,
    inside: bool,
    before: Vec<ASTNode>,
) -> (r: Result<(Vec<ASTNode>, usize, SymbolTable), ErrorHandler>)
    requires
        pos <= tokens.len(),
    ensures
        body_agrees(
            r,
            parse_stmts(texts_view(tokens@), pos as int, table@, inside, nodes_view(before@)),
            pos,
            tokens@.len(),
        ),
    decreases tokens.len() - pos, 60int,
{
    let ghost toks = texts_view(tokens@);
    if pos >= tokens.len() {
        return Err(ErrorHandler::UnexpectedEndOfProgram);
    }
    if token_is(tokens, pos, 0, "}") {
        return Ok((before, pos + 1, table));
    }
    let (s, p, t2) = match parse_statement(tokens, pos, table, inside) {
        Ok(x) => x,
        Err(e) => {
            return Err(e);
        },
    };
    let mut body = before;
    let ghost earlier = nodes_view(body@);
    body.push(s);
    assert(nodes_view(body@) =~= earlier.push(s@));
    parse_statements(tokens, p, t2, inside, body)
}

/// Parses `{ statements }`.
fn parse_body(tokens: &Vec<String>, pos: usize, table: SymbolTable, inside: bool) -> (r: Result<
    (Vec<ASTNode>, usize, SymbolTable),
    ErrorHandler,
>)
    requires
        pos <= tokens.len(),
    ensures
        body_agrees(
            r,
            parse_block(texts_view(tokens@), pos as int, table@, inside),
            pos,
            tokens@.len(),
        ),
    decreases tokens.len() - pos, 70int,
{
    let p = match expect_token(tokens, pos, 0, "{") {
        Ok(p) => p,
        Err(e) => {
            return Err(e);
        },
    };
    let before: Vec<ASTNode> = Vec::new();
    assert(nodes_view(before@) =~= Seq::empty());
    parse_statements(tokens, p, table, inside, before)
}

/// Parses `( condition ) { statements }`.
fn parse_condition_and_body(
    tokens: &Vec<String>,
    pos: usize,
    table: SymbolTable,
    inside: bool,
) -> (r: Result<((ASTNode, Vec<ASTNode>), usize, SymbolTable), ErrorHandler>)
    requires
        pos <= tokens.len(),
    ensures
        ({
            let m = parse_arm(texts_view(tokens@), pos as int, table@, inside);
            match r {
                Ok(((cond, body), p, t)) => m == Ok::<
                    ((Expr, Seq<Expr>), int, Symbols),
                    ErrorKind,
                >(((cond@, nodes_view(body@)), p as int, t@)) && pos < p <= tokens.len(),
                Err(e) => m == Err::<((Expr, Seq<Expr>), int, Symbols), ErrorKind>(e@),
            }
        }),
    decreases tokens.len() - pos, 80int,
{
    let (cond, p) = match parse_bracketed(tokens, pos, &table) {
        Ok(x) => x,
        Err(e) => {
            return Err(e);
        },
    };
    match parse_body(tokens, p, table, inside) {
        Ok((body, q, t2)) => Ok(((cond, body), q, t2)),
        Err(e) => Err(e),
    }
}

/// Parses the `elif` arms.
fn parse_elif_arms(
    tokens: &Vec<String>,
    pos: usize,
    table: SymbolTable,
    inside: bool,
    before: Vec<(ASTNode, Vec<ASTNode>)>,
) -> (r: Result<(Vec<(ASTNode, Vec<ASTNode>)>, usize, SymbolTable), ErrorHandler>)
    requires
        pos <= tokens.len(),
    ensures
        arms_agree(
            r,
            parse_elifs(texts_view(tokens@), pos as int, table@, inside, arms_view(before@)),
            pos,
            tokens@.len(),
        ),
    decreases tokens.len() - pos, 90int,
{
    if !token_is(tokens, pos, 0, "elif") {
        return Ok((before, pos, table));
    }
    let (arm, p, t2) = match parse_condition_and_body(tokens, pos + 1, table, inside) {
        Ok(x) => x,
        Err(e) => {
            return Err(e);
        },
    };
    let mut arms = before;
    let ghost earlier = arms_view(arms@);
    let ghost added = (arm.0@, nodes_view(arm.1@));
    arms.push(arm);
    assert(arms_view(arms@) =~= earlier.push(added));
    parse_elif_arms(tokens, p, t2, inside, arms)
}

/// Parses an `if` with its `elif` arms and its `else` body.
fn parse_if_stmt(tokens: &Vec<String>, pos: usize, table: SymbolTable, inside: bool) -> (r: Result<
    (ASTNode, usize, SymbolTable),
    ErrorHandler,
>)
    requires
        pos < tokens.len(),
    ensures
        stmt_agrees(
            r,
            parse_if(texts_view(tokens@), pos as int, table@, inside),
            pos,
            tokens@.len(),
        ),
    decreases tokens.len() - pos, 40int,
{
    let ((cond, body), p, t1) = match parse_condition_and_body(tokens, pos + 1, table, inside) {
        Ok(x) => x,
        Err(e) => {
            return Err(e);
        },
    };
    let before: Vec<(ASTNode, Vec<ASTNode>)> = Vec::new();
    assert(arms_view(before@) =~= Seq::empty());
    let (elifs, q, t2) = match parse_elif_arms(tokens, p, t1, inside, before) {
        Ok(x) => x,
        Err(e) => {
            return Err(e);
        },
    };
    if token_is(tokens, q, 0, "else") {
        match parse_body(tokens, q + 1, t2, inside) {
            Ok((other, r, t3)) => Ok((ASTNode::IEE(Box::new(cond), body, elifs, Some(other)), r, t3)),
            Err(e) => Err(e),
        }
    } else {
        Ok((ASTNode::IEE(Box::new(cond), body, elifs, None), q, t2))
    }
}

/// Parses a `while` loop.
fn parse_while_stmt(tokens: &Vec<String>, pos: usize, table: SymbolTable, inside: bool) -> (r:
    Result<(ASTNode, usize, SymbolTable), ErrorHandler>)
    requires
        pos < tokens.len(),
    ensures
        stmt_agrees(
            r,
            parse_while(texts_view(tokens@), pos as int, table@, inside),
            pos,
            tokens@.len(),
        ),
    decreases tokens.len() - pos, 40int,
{
    match parse_condition_and_body(tokens, pos + 1, table, inside) {
        Ok(((cond, body), p, t1)) => Ok((ASTNode::While(Box::new(cond), body), p, t1)),
        Err(e) => Err(e),
    }
}

/// Parses a `for` loop.
fn parse_for_stmt(tokens: &Vec<String>, pos: usize, table: SymbolTable, inside: bool) -> (r: Result<
    (ASTNode, usize, SymbolTable),
    ErrorHandler,
>)
    requires
        pos < tokens.len(),
    ensures
        stmt_agrees(
            r,
            parse_for(texts_view(tokens@), pos as int, table@, inside),
            pos,
            tokens@.len(),
        ),
    decreases tokens.len() - pos, 40int,
{
    match expect_token(tokens, pos, 1, "(") {
        Ok(_) => {},
        Err(e) => {
            return Err(e);
        },
    }
    let var = match expect_ident(tokens, pos, 2) {
        Ok(n) => n,
        Err(e) => {
            return Err(e);
        },
    };
    if table.variables.position(var.as_str()).is_none() {
        return Err(ErrorHandler::VariableNotFound(var));
    }
    match expect_token(tokens, pos, 3, ";") {
        Ok(_) => {},
        Err(e) => {
            return Err(e);
        },
    }
    let (cond, p) = match parse_expression(tokens, pos + 4, &table) {
        Ok(x) => x,
        Err(e) => {
            return Err(e);
        },
    };
    let m2 = match expect_token(tokens, p, 0, ";") {
        Ok(q) => q,
        Err(e) => {
            return Err(e);
        },
    };
    let (step, m3, t1) = match parse_assign(tokens, m2, table) {
        Ok(x) => x,
        Err(e) => {
            return Err(e);
        },
    };
    let m4 = match expect_token(tokens, m3, 0, ")") {
        Ok(q) => q,
        Err(e) => {
            return Err(e);
        },
    };
    match parse_body(tokens, m4, t1, inside) {
        Ok((body, q, t2)) => Ok((ASTNode::For(var, Box::new(cond), Box::new(step), body), q, t2)),
        Err(e) => Err(e),
    }
}

/// Parses the declaration of a function.
fn parse_func_stmt(tokens: &Vec<String>, pos: usize, table: SymbolTable) -> (r: Result<
    (ASTNode, usize, SymbolTable),
    ErrorHandler,
>)
    requires
        pos < tokens.len(),
    ensures
        stmt_agrees(r, parse_func(texts_view(tokens@), pos as int, table@), pos, tokens@.len()),
    decreases tokens.len() - pos, 40int,
{
    let mut table = table;
    let name = match expect_ident(tokens, pos, 1) {
        Ok(n) => n,
        Err(e) => {
            return Err(e);
        },
    };
    match expect_token(tokens, pos, 2, "(") {
        Ok(_) => {},
        Err(e) => {
            return Err(e);
        },
    }
    let (params, p) = if token_is(tokens, pos, 3, ")") {
        let none: Vec<(String, String)> = Vec::new();
        assert(named_params_view(none@) =~= Seq::empty());
        (none, pos + 4)
    } else {
        let none: Vec<(String, String)> = Vec::new();
        assert(named_params_view(none@) =~= Seq::empty());
        match parse_parameters(tokens, pos + 3, none) {
            Ok(x) => x,
            Err(e) => {
                return Err(e);
            },
        }
    };
    match expect_token(tokens, p, 0, ":") {
        Ok(_) => {},
        Err(e) => {
            return Err(e);
        },
    }
    let ret = match expect_ident(tokens, p, 1) {
        Ok(n) => n,
        Err(e) => {
            return Err(e);
        },
    };
    let kept = canonical_parameters(&params);
    let kept_ret = Type::to_type(ret.as_str()).to_string();
    let mut inner = table.clone();
    declare_parameters(&mut inner.variables, &kept);
    let empty: Vec<ASTNode> = Vec::new();
    assert(nodes_view(empty@) =~= Seq::empty());
    inner.functions.bind(
        name.clone(),
        Function::new(name.clone(), clone_named_params(&kept), empty, kept_ret.clone()),
    );
    let (body, q, _) = match parse_body(tokens, p + 2, inner, true) {
        Ok(x) => x,
        Err(e) => {
            return Err(e);
        },
    };
    let typed = type_parameters(&params);
    let tag = Type::to_type(ret.as_str());
    table.functions.bind(
        name.clone(),
        Function::new(name.clone(), kept, clone_nodes(&body), kept_ret),
    );
    Ok((ASTNode::FuncDef(name, typed, tag, body), q, table))
}

/// Parses the cases of a `switch`.
fn parse_case_arms(
    tokens: &Vec<String>,
    pos: usize,
    table: SymbolTable,
    inside: bool,
    before: Vec<(ASTNode, Vec<ASTNode>)>,
) -> (r: Result<(Vec<(ASTNode, Vec<ASTNode>)>, usize, SymbolTable), ErrorHandler>)
    requires
        pos <= tokens.len(),
    ensures
        arms_agree(
            r,
            parse_cases(texts_view(tokens@), pos as int, table@, inside, arms_view(before@)),
            pos,
            tokens@.len(),
        ),
    decreases tokens.len() - pos, 90int,
{
    if !token_is(tokens, pos, 0, "case") {
        return Ok((before, pos, table));
    }
    let (value, p) = match parse_expression(tokens, pos + 1, &table) {
        Ok(x) => x,
        Err(e) => {
            return Err(e);
        },
    };
    let (body, q, t2) = match parse_body(tokens, p, table, inside) {
        Ok(x) => x,
        Err(e) => {
            return Err(e);
        },
    };
    let mut arms = before;
    let ghost earlier = arms_view(arms@);
    let ghost added = (value@, nodes_view(body@));
    arms.push((value, body));
    assert(arms_view(arms@) =~= earlier.push(added));
    parse_case_arms(tokens, q, t2, inside, arms)
}

/// Parses a `switch`.
fn parse_switch_stmt(tokens: &Vec<String>, pos: usize, table: SymbolTable, inside: bool) -> (r:
    Result<(ASTNode, usize, SymbolTable), ErrorHandler>)
    requires
        pos < tokens.len(),
    ensures
        stmt_agrees(
            r,
            parse_switch(texts_view(tokens@), pos as int, table@, inside),
            pos,
            tokens@.len(),
        ),
    decreases tokens.len() - pos, 40int,
{
    let (subject, p) = match parse_bracketed(tokens, pos + 1, &table) {
        Ok(x) => x,
        Err(e) => {
            return Err(e);
        },
    };
    let m1 = match expect_token(tokens, p, 0, "{") {
        Ok(q) => q,
        Err(e) => {
            return Err(e);
        },
    };
    let before: Vec<(ASTNode, Vec<ASTNode>)> = Vec::new();
    assert(arms_view(before@) =~= Seq::empty());
    let (cases, q, t1) = match parse_case_arms(tokens, m1, table, inside, before) {
        Ok(x) => x,
        Err(e) => {
            return Err(e);
        },
    };
    if token_is(tokens, q, 0, "default") {
        let (other, r, t2) = match parse_body(tokens, q + 1, t1, inside) {
            Ok(x) => x,
            Err(e) => {
                return Err(e);
            },
        };
        match expect_token(tokens, r, 0, "}") {
            Ok(end) => Ok((ASTNode::Switch(Box::new(subject), cases, Some(other)), end, t2)),
            Err(e) => Err(e),
        }
    } else {
        match expect_token(tokens, q, 0, "}") {
            Ok(end) => Ok((ASTNode::Switch(Box::new(subject), cases, None), end, t1)),
            Err(e) => Err(e),
        }
    }
}

/// Parses the statements of a program from `pos` on.
fn parse_rest(tokens: &Vec<String>, pos: usize, table: SymbolTable, before: Vec<ASTNode>) -> (r:
    Result<(Vec<ASTNode>, SymbolTable), ErrorHandler>)
    requires
        pos <= tokens.len(),
    ensures
        ({
            let m = parse_program(texts_view(tokens@), pos as int, table@, nodes_view(before@));
            match r {
                Ok((nodes, t)) => m == Ok::<(Seq<Expr>, Symbols), ErrorKind>(
                    (nodes_view(nodes@), t@),
                ),
                Err(e) => m == Err::<(Seq<Expr>, Symbols), ErrorKind>(e@),
            }
        }),
    decreases tokens.len() - pos,
{
    if pos >= tokens.len() {
        return Ok((before, table));
    }
    let (s, p, t2) = match parse_statement(tokens, pos, table, false) {
        Ok(x) => x,
        Err(e) => {
            return Err(e);
        },
    };
    let mut nodes = before;
    let ghost earlier = nodes_view(nodes@);
    nodes.push(s);
    assert(nodes_view(nodes@) =~= earlier.push(s@));
    parse_rest(tokens, p, t2, nodes)
}

/// Parses a program, given the names declared before it. Gives the tree
/// and the names declared after it.
pub fn parse_with(tokens: &Vec<String>, table: SymbolTable) -> (r: Result<
    (Vec<ASTNode>, SymbolTable),
    ErrorHandler,
>)
    ensures
        r matches Ok((nodes, t)) ==> parse_tokens(texts_view(tokens@), table@) == Ok::<
            (Seq<Expr>, Symbols),
            ErrorKind,
        >((nodes_view(nodes@), t@)),
        r matches Err(e) ==> parse_tokens(texts_view(tokens@), table@) == Err::<
            (Seq<Expr>, Symbols),
            ErrorKind,
        >(e@),
{
    if tokens.len() == 0 {
        return Err(ErrorHandler::NoProgram);
    }
    let nodes: Vec<ASTNode> = Vec::new();
    assert(nodes_view(nodes@) =~= Seq::empty());
    parse_rest(tokens, 0, table, nodes)
}

/// Parses a program that stands alone.
pub fn parse(tokens: &Vec<String>) -> (r: Result<Vec<ASTNode>, ErrorHandler>)
    ensures
        ({
            let m = parse_tokens(
                texts_view(tokens@),
                Symbols { vars: Seq::empty(), funcs: Seq::empty() },
            );
            match r {
                Ok(nodes) => m matches Ok((tree, _)) && tree == nodes_view(nodes@),
                Err(e) => m == Err::<(Seq<Expr>, Symbols), ErrorKind>(e@),
            }
        }),
{
    match parse_with(tokens, SymbolTable::new()) {
        Ok((nodes, _)) => Ok(nodes),
        Err(e) => Err(e),
    }
}

/// The canonical form of a program: the tokens that its tree is
/// written with. They read back as the same tree.
pub fn canonical_tokens(tokens: &Vec<String>) -> (r: Result<Vec<String>, ErrorHandler>)
    ensures
        ({
            let table = Symbols { vars: Seq::empty(), funcs: Seq::empty() };
            let m = parse_tokens(texts_view(tokens@), table);
            match r {
                Ok(written) => m matches Ok((tree, _)) && texts_view(written@)
                    == crate::ast::printer::body_tokens(tree, 0) && parse_tokens(
                    texts_view(written@),
                    table,
                ) == m,
                Err(e) => m == Err::<(Seq<Expr>, Symbols), ErrorKind>(e@),
            }
        }),
{
    match parse_with(tokens, SymbolTable::new()) {
        Ok((nodes, _)) => {
            proof {
                crate::parser::reread::law_program_round_trip(
                    texts_view(tokens@),
                    Symbols { vars: Seq::empty(), funcs: Seq::empty() },
                );
            }
            Ok(crate::ast::printer::program_tokens(&nodes))
        },
        Err(e) => Err(e),
    }
}

} // verus!
