//! The grammar of the language, as functions from tokens to trees.

use vstd::prelude::*;
use crate::ast::{BinaryOp, Expr, UnaryOp};
use crate::checker::{checked_expr, literal_type};
use crate::env::{bind, find, lookup, unbind};
use crate::error_handler::ErrorKind;
use crate::interp::builtins::builtin_of;
use crate::literal::{read_of, ReadModel};
use crate::types::{name_of_type, type_of_name, Type};
use crate::var_func::{FunctionEntry, VariableEntry};

verus! {

/// What the parser knows of the names declared so far.
pub struct Symbols {
    pub vars: Seq<(Seq<char>, VariableEntry)>,
    pub funcs: Seq<(Seq<char>, FunctionEntry)>,
}

/// A parsed expression and the place of the token after it.
pub type ParsedExpr = Result<(Expr, int), ErrorKind>;

/// A parsed statement, the place of the token after it, and the names
/// declared once it has been read.
pub type ParsedStmt = Result<(Expr, int, Symbols), ErrorKind>;

/// A parsed list of statements, likewise.
pub type ParsedBody = Result<(Seq<Expr>, int, Symbols), ErrorKind>;

/// A parsed list of conditions with their bodies, likewise.
pub type ParsedArms = Result<(Seq<(Expr, Seq<Expr>)>, int, Symbols), ErrorKind>;

/// Whether a name can start with this character.
pub open spec fn is_letter(c: char) -> bool {
    ('a' <= c && c <= 'z') || ('A' <= c && c <= 'Z') || c == '_'
}

/// Whether a name can go on with this character.
pub open spec fn is_name_char(c: char) -> bool {
    is_letter(c) || ('0' <= c && c <= '9')
}

/// Whether a token is written as a name.
pub open spec fn is_identifier(t: Seq<char>) -> bool {
    t.len() > 0 && is_letter(t[0]) && forall|i: int| 0 <= i < t.len() ==> is_name_char(#[trigger] t[i])
}

/// Whether a token is a word of the language itself.
pub open spec fn is_reserved(t: Seq<char>) -> bool {
    t == "let"@ || t == "del"@ || t == "return"@ || t == "if"@ || t == "elif"@ || t == "else"@ || t
        == "while"@ || t == "for"@ || t == "func"@ || t == "switch"@ || t == "case"@ || t
        == "default"@ || t == "true"@ || t == "false"@
}

/// Whether a token can name a variable, a function or a type.
pub open spec fn is_name(t: Seq<char>) -> bool {
    is_identifier(t) && !is_reserved(t)
}

/// The name under which the type that `typ` names is kept.
pub open spec fn canonical(typ: Seq<char>) -> Seq<char> {
    name_of_type(type_of_name(typ))
}

/// The parameters with the names of their types as they are kept.
pub open spec fn canonical_params(params: Seq<(Seq<char>, Seq<char>)>) -> Seq<
    (Seq<char>, Seq<char>),
> {
    Seq::new(params.len(), |i: int| (params[i].0, canonical(params[i].1)))
}

/// Whether a token is a text between double quotes.
pub open spec fn is_string_token(t: Seq<char>) -> bool {
    t.len() >= 2 && t[0] == '"' && t[t.len() - 1] == '"'
}

/// The place after the token at `pos`, where that token is `want`.
pub open spec fn expect(toks: Seq<Seq<char>>, pos: int, want: Seq<char>) -> Result<int, ErrorKind> {
    if 0 <= pos < toks.len() {
        if toks[pos] == want {
            Ok(pos + 1)
        } else {
            Err(ErrorKind::UnexpectedToken(want, toks[pos]))
        }
    } else {
        Err(ErrorKind::UnexpectedEndOfProgram)
    }
}

/// Whether the token at `pos` is `want`.
pub open spec fn at(toks: Seq<Seq<char>>, pos: int, want: Seq<char>) -> bool {
    0 <= pos < toks.len() && toks[pos] == want
}

/// The name at `pos`.
pub open spec fn expect_name(toks: Seq<Seq<char>>, pos: int) -> Result<Seq<char>, ErrorKind> {
    if 0 <= pos < toks.len() {
        if is_name(toks[pos]) {
            Ok(toks[pos])
        } else {
            Err(ErrorKind::UnexpectedToken("identifier"@, toks[pos]))
        }
    } else {
        Err(ErrorKind::UnexpectedEndOfProgram)
    }
}

/// A parsed expression that ends after `pos` and within the tokens.
pub open spec fn forward(r: ParsedExpr, pos: int, len: nat) -> ParsedExpr {
    match r {
        Ok((e, p)) => if pos < p <= len {
            r
        } else {
            Err(ErrorKind::UnexpectedEndOfProgram)
        },
        Err(_) => r,
    }
}

/// The operator of precedence `level` that a token writes: level 0 is
/// equality, 1 is ordering, 2 is sum and difference, 3 is product,
/// quotient and remainder.
pub open spec fn operator_at(level: int, t: Seq<char>) -> Option<BinaryOp> {
    if level == 0 {
        if t == "=="@ {
            Some(BinaryOp::Eq)
        } else if t == "!="@ {
            Some(BinaryOp::Ne)
        } else {
            None
        }
    } else if level == 1 {
        if t == "<"@ {
            Some(BinaryOp::Lt)
        } else if t == "<="@ {
            Some(BinaryOp::Lte)
        } else if t == ">"@ {
            Some(BinaryOp::Gt)
        } else if t == ">="@ {
            Some(BinaryOp::Gte)
        } else {
            None
        }
    } else if level == 2 {
        if t == "+"@ {
            Some(BinaryOp::Add)
        } else if t == "-"@ {
            Some(BinaryOp::Sub)
        } else {
            None
        }
    } else if level == 3 {
        if t == "*"@ {
            Some(BinaryOp::Mul)
        } else if t == "/"@ {
            Some(BinaryOp::Div)
        } else if t == "%"@ {
            Some(BinaryOp::Mod)
        } else {
            None
        }
    } else {
        None
    }
}

/// An expression of precedence `level` or tighter that starts at `pos`.
/// Levels 0 to 3 are chains of operators, grouped from the left; level
/// 4 and beyond is a power.
pub open spec fn parse_tier(toks: Seq<Seq<char>>, pos: int, table: Symbols, level: int) -> ParsedExpr
    decreases toks.len() - pos,
        if 0 <= level < 4 {
            20 - 2 * level
        } else {
            11
        },
{
    if pos < 0 || pos >= toks.len() {
        Err(ErrorKind::UnexpectedEndOfProgram)
    } else if level < 0 || level >= 4 {
        parse_power(toks, pos, table)
    } else {
        match forward(parse_tier(toks, pos, table, level + 1), pos, toks.len()) {
            Ok((lhs, p)) => parse_tier_rest(toks, p, table, level, lhs),
            Err(e) => Err(e),
        }
    }
}

/// The rest of a chain of operators of precedence `level` whose
/// operands so far make `lhs`.
pub open spec fn parse_tier_rest(
    toks: Seq<Seq<char>>,
    pos: int,
    table: Symbols,
    level: int,
    lhs: Expr,
) -> ParsedExpr
    decreases toks.len() - pos, 30int,
{
    if 0 <= pos < toks.len() && 0 <= level < 4 {
        match operator_at(level, toks[pos]) {
            Some(op) => match forward(
                parse_tier(toks, pos + 1, table, level + 1),
                pos + 1,
                toks.len(),
            ) {
                Ok((rhs, p)) => parse_tier_rest(
                    toks,
                    p,
                    table,
                    level,
                    Expr::Binary(op, Box::new(lhs), Box::new(rhs)),
                ),
                Err(e) => Err(e),
            },
            None => Ok((lhs, pos)),
        }
    } else {
        Ok((lhs, pos))
    }
}

/// A power: an operand, and where `^` follows, the power that is its
/// exponent; powers group from the right.
pub open spec fn parse_power(toks: Seq<Seq<char>>, pos: int, table: Symbols) -> ParsedExpr
    decreases toks.len() - pos, 10int,
{
    if pos < 0 || pos >= toks.len() {
        Err(ErrorKind::UnexpectedEndOfProgram)
    } else {
        match forward(parse_unary(toks, pos, table), pos, toks.len()) {
            Ok((base, p)) => if at(toks, p, "^"@) {
                match parse_power(toks, p + 1, table) {
                    Ok((exp, q)) => Ok((Expr::Binary(BinaryOp::Pow, Box::new(base), Box::new(exp)), q)),
                    Err(e) => Err(e),
                }
            } else {
                Ok((base, p))
            },
            Err(e) => Err(e),
        }
    }
}

/// An operand with the signs `-` and `!` before it.
pub open spec fn parse_unary(toks: Seq<Seq<char>>, pos: int, table: Symbols) -> ParsedExpr
    decreases toks.len() - pos, 9int,
{
    if pos < 0 || pos >= toks.len() {
        Err(ErrorKind::UnexpectedEndOfProgram)
    } else if toks[pos] == "-"@ {
        match parse_unary(toks, pos + 1, table) {
            Ok((e, p)) => Ok((Expr::Unary(UnaryOp::Neg, Box::new(e)), p)),
            Err(e) => Err(e),
        }
    } else if toks[pos] == "!"@ {
        match parse_unary(toks, pos + 1, table) {
            Ok((e, p)) => Ok((Expr::Unary(UnaryOp::Not, Box::new(e)), p)),
            Err(e) => Err(e),
        }
    } else {
        parse_atom(toks, pos, table)
    }
}

/// An expression in brackets, a literal, a call or a variable.
pub open spec fn parse_atom(toks: Seq<Seq<char>>, pos: int, table: Symbols) -> ParsedExpr
    decreases toks.len() - pos, 8int,
{
    if pos < 0 || pos >= toks.len() {
        Err(ErrorKind::UnexpectedEndOfProgram)
    } else {
        let t = toks[pos];
        if t == "("@ {
            match parse_tier(toks, pos + 1, table, 0) {
                Ok((e, p)) => match expect(toks, p, ")"@) {
                    Ok(q) => Ok((e, q)),
                    Err(err) => Err(err),
                },
                Err(err) => Err(err),
            }
        } else if t == "true"@ {
            Ok((Expr::Boolean(true), pos + 1))
        } else if t == "false"@ {
            Ok((Expr::Boolean(false), pos + 1))
        } else if is_string_token(t) {
            Ok((Expr::Str(t.subrange(1, t.len() - 1)), pos + 1))
        } else if is_name(t) {
            if at(toks, pos + 1, "("@) {
                if builtin_of(t) is None && find(table.funcs, t) is None {
                    Err(ErrorKind::FunctionNotFound(t))
                } else if at(toks, pos + 2, ")"@) {
                    Ok((Expr::FuncCall(t, Seq::empty()), pos + 3))
                } else {
                    match parse_args(toks, pos + 2, table, Seq::empty()) {
                        Ok((args, p)) => Ok((Expr::FuncCall(t, args), p)),
                        Err(err) => Err(err),
                    }
                }
            } else if find(table.vars, t) is None {
                Err(ErrorKind::VariableNotFound(t))
            } else {
                Ok((Expr::VarRef(t), pos + 1))
            }
        } else {
            match read_of(t) {
                ReadModel::Int(i) => Ok((Expr::Int(i), pos + 1)),
                ReadModel::Float(u) => Ok((Expr::Float(u), pos + 1)),
                ReadModel::OutOfRange => Err(ErrorKind::NumberOutOfRange),
                ReadModel::NotANumber => Err(ErrorKind::UnknownToken(t)),
            }
        }
    }
}

/// The arguments of a call from `pos` on, up to the closing bracket;
/// `before` holds the arguments already read.
pub open spec fn parse_args(
    toks: Seq<Seq<char>>,
    pos: int,
    table: Symbols,
    before: Seq<Expr>,
) -> Result<(Seq<Expr>, int), ErrorKind>
    decreases toks.len() - pos, 40int,
{
    match forward(parse_tier(toks, pos, table, 0), pos, toks.len()) {
        Ok((e, p)) => if at(toks, p, ","@) {
            parse_args(toks, p + 1, table, before.push(e))
        } else {
            match expect(toks, p, ")"@) {
                Ok(q) => Ok((before.push(e), q)),
                Err(err) => Err(err),
            }
        },
        Err(err) => Err(err),
    }
}

/// An expression that starts at `pos`.
pub open spec fn parse_expr(toks: Seq<Seq<char>>, pos: int, table: Symbols) -> ParsedExpr {
    forward(parse_tier(toks, pos, table, 0), pos, toks.len())
}

/// An expression in round brackets that starts at `pos`.
pub open spec fn parse_condition(toks: Seq<Seq<char>>, pos: int, table: Symbols) -> ParsedExpr {
    match expect(toks, pos, "("@) {
        Err(err) => Err(err),
        Ok(m1) => match parse_expr(toks, m1, table) {
            Err(err) => Err(err),
            Ok((cond, m2)) => match expect(toks, m2, ")"@) {
                Err(err) => Err(err),
                Ok(m3) => Ok((cond, m3)),
            },
        },
    }
}

/// The literal that a variable is known to hold, for a reference to
/// such a variable; every other node as it is.
pub open spec fn known_value(table: Symbols, e: Expr) -> Expr {
    match e {
        Expr::VarRef(name) => match lookup(table.vars, name) {
            Some(entry) => match entry.value {
                Some(v) => v,
                None => e,
            },
            None => e,
        },
        _ => e,
    }
}

/// The node itself where it is a literal.
pub open spec fn literal_part(e: Expr) -> Option<Expr> {
    if literal_type(e) is Some {
        Some(e)
    } else {
        None
    }
}

/// What a value of declared type `typ` becomes on assignment, and the
/// literal that the variable is then known to hold. A reference to a
/// variable with a known literal is checked as that literal.
pub open spec fn checked_value(table: Symbols, typ: Seq<char>, value: Expr) -> Result<
    (Expr, Option<Expr>),
    ErrorKind,
> {
    match checked_expr(typ, known_value(table, value)) {
        Err(err) => Err(err),
        Ok(c) => Ok(
            (
                if literal_type(value) is Some {
                    c
                } else {
                    value
                },
                literal_part(c),
            ),
        ),
    }
}

/// `let name : type = value ;` with `let` at `pos`.
pub open spec fn parse_let(toks: Seq<Seq<char>>, pos: int, table: Symbols) -> ParsedStmt {
    match expect_name(toks, pos + 1) {
        Err(err) => Err(err),
        Ok(name) => if find(table.vars, name) is Some {
            Err(ErrorKind::VariableAlreadyExists(name))
        } else {
            match expect(toks, pos + 2, ":"@) {
                Err(err) => Err(err),
                Ok(_) => match expect_name(toks, pos + 3) {
                    Err(err) => Err(err),
                    Ok(typ) => match expect(toks, pos + 4, "="@) {
                        Err(err) => Err(err),
                        Ok(_) => match parse_expr(toks, pos + 5, table) {
                            Err(err) => Err(err),
                            Ok((init, p)) => match expect(toks, p, ";"@) {
                                Err(err) => Err(err),
                                Ok(q) => match checked_value(table, typ, init) {
                                    Err(err) => Err(err),
                                    Ok((node, known)) => Ok(
                                        (
                                            Expr::Let(name, type_of_name(typ), Box::new(node)),
                                            q,
                                            Symbols {
                                                vars: bind(
                                                    table.vars,
                                                    name,
                                                    VariableEntry { name, typ, value: known },
                                                ),
                                                ..table
                                            },
                                        ),
                                    ),
                                },
                            },
                        },
                    },
                },
            }
        },
    }
}

/// `name = value` with the name at `pos`, without the `;`.
pub open spec fn parse_assignment(toks: Seq<Seq<char>>, pos: int, table: Symbols) -> ParsedStmt {
    match expect_name(toks, pos) {
        Err(err) => Err(err),
        Ok(name) => match lookup(table.vars, name) {
            None => Err(ErrorKind::VariableNotFound(name)),
            Some(entry) => match expect(toks, pos + 1, "="@) {
                Err(err) => Err(err),
                Ok(_) => match parse_expr(toks, pos + 2, table) {
                    Err(err) => Err(err),
                    Ok((value, p)) => match checked_value(table, entry.typ, value) {
                        Err(err) => Err(err),
                        Ok((node, known)) => Ok(
                            (
                                Expr::Assign(name, Box::new(node)),
                                p,
                                Symbols {
                                    vars: bind(
                                        table.vars,
                                        name,
                                        VariableEntry { name, typ: entry.typ, value: known },
                                    ),
                                    ..table
                                },
                            ),
                        ),
                    },
                },
            },
        },
    }
}

/// `del name ;` with `del` at `pos`.
pub open spec fn parse_del(toks: Seq<Seq<char>>, pos: int, table: Symbols) -> ParsedStmt {
    match expect_name(toks, pos + 1) {
        Err(err) => Err(err),
        Ok(name) => if find(table.vars, name) is None {
            Err(ErrorKind::VariableNotFound(name))
        } else {
            match expect(toks, pos + 2, ";"@) {
                Err(err) => Err(err),
                Ok(q) => Ok(
                    (Expr::Del(name), q, Symbols { vars: unbind(table.vars, name), ..table }),
                ),
            }
        },
    }
}

/// `return value ;` with `return` at `pos`.
pub open spec fn parse_return(toks: Seq<Seq<char>>, pos: int, table: Symbols, inside: bool) -> ParsedStmt {
    if !inside {
        Err(ErrorKind::ReturnOutsideFunction)
    } else {
        match parse_expr(toks, pos + 1, table) {
            Err(err) => Err(err),
            Ok((value, p)) => match expect(toks, p, ";"@) {
                Err(err) => Err(err),
                Ok(q) => Ok((Expr::Return(Box::new(value)), q, table)),
            },
        }
    }
}

/// An expression as a statement, with the `;` after it where there is
/// one.
pub open spec fn parse_expr_stmt(toks: Seq<Seq<char>>, pos: int, table: Symbols) -> ParsedStmt {
    match parse_expr(toks, pos, table) {
        Err(err) => Err(err),
        Ok((e, p)) => if at(toks, p, ";"@) {
            Ok((e, p + 1, table))
        } else {
            Ok((e, p, table))
        },
    }
}

/// The parameters of a function from `pos` on, up to the closing
/// bracket: `name : type` with commas between.
pub open spec fn parse_params(
    toks: Seq<Seq<char>>,
    pos: int,
    before: Seq<(Seq<char>, Seq<char>)>,
) -> Result<(Seq<(Seq<char>, Seq<char>)>, int), ErrorKind>
    decreases toks.len() - pos,
{
    match expect_name(toks, pos) {
        Err(err) => Err(err),
        Ok(name) => match expect(toks, pos + 1, ":"@) {
            Err(err) => Err(err),
            Ok(_) => match expect_name(toks, pos + 2) {
                Err(err) => Err(err),
                Ok(typ) => if at(toks, pos + 3, ","@) {
                    parse_params(toks, pos + 4, before.push((name, typ)))
                } else {
                    match expect(toks, pos + 3, ")"@) {
                        Err(err) => Err(err),
                        Ok(q) => Ok((before.push((name, typ)), q)),
                    }
                },
            },
        },
    }
}

/// The variables with each parameter from `from` on declared, its value
/// unknown.
pub open spec fn declare_params(
    vars: Seq<(Seq<char>, VariableEntry)>,
    params: Seq<(Seq<char>, Seq<char>)>,
    from: int,
) -> Seq<(Seq<char>, VariableEntry)>
    decreases params.len() - from,
{
    if 0 <= from < params.len() {
        declare_params(
            bind(
                vars,
                params[from].0,
                VariableEntry { name: params[from].0, typ: params[from].1, value: None },
            ),
            params,
            from + 1,
        )
    } else {
        vars
    }
}

/// The parameters with their types by tag.
pub open spec fn typed_params(params: Seq<(Seq<char>, Seq<char>)>) -> Seq<(Seq<char>, Type)> {
    Seq::new(params.len(), |i: int| (params[i].0, type_of_name(params[i].1)))
}

/// The statement that starts at `pos`. `inside` says whether it stands
/// in the body of a function.
pub open spec fn parse_stmt(toks: Seq<Seq<char>>, pos: int, table: Symbols, inside: bool) -> ParsedStmt
    decreases toks.len() - pos, 50int,
{
    if pos < 0 || pos >= toks.len() {
        Err(ErrorKind::UnexpectedEndOfProgram)
    } else {
        let t = toks[pos];
        if t == "let"@ {
            parse_let(toks, pos, table)
        } else if t == "del"@ {
            parse_del(toks, pos, table)
        } else if t == "return"@ {
            parse_return(toks, pos, table, inside)
        } else if t == "if"@ {
            parse_if(toks, pos, table, inside)
        } else if t == "while"@ {
            parse_while(toks, pos, table, inside)
        } else if t == "for"@ {
            parse_for(toks, pos, table, inside)
        } else if t == "func"@ {
            parse_func(toks, pos, table)
        } else if t == "switch"@ {
            parse_switch(toks, pos, table, inside)
        } else if is_name(t) && at(toks, pos + 1, "="@) {
            match parse_assignment(toks, pos, table) {
                Err(err) => Err(err),
                Ok((node, p, t2)) => match expect(toks, p, ";"@) {
                    Err(err) => Err(err),
                    Ok(q) => Ok((node, q, t2)),
                },
            }
        } else {
            parse_expr_stmt(toks, pos, table)
        }
    }
}

/// The statements from `pos` on, up to the closing brace; `before`
/// holds the statements already read.
pub open spec fn parse_stmts(
    toks: Seq<Seq<char>>,
    pos: int,
    table: Symbols,
    inside: bool,
    before: Seq<Expr>,
) -> ParsedBody
    decreases toks.len() - pos, 60int,
{
    if pos < 0 || pos >= toks.len() {
        Err(ErrorKind::UnexpectedEndOfProgram)
    } else if toks[pos] == "}"@ {
        Ok((before, pos + 1, table))
    } else {
        match parse_stmt(toks, pos, table, inside) {
            Err(err) => Err(err),
            Ok((s, p, t2)) => if pos < p <= toks.len() {
                parse_stmts(toks, p, t2, inside, before.push(s))
            } else {
                Err(ErrorKind::UnexpectedEndOfProgram)
            },
        }
    }
}

/// `{ statements }` with the opening brace at `pos`, which lies after
/// `floor`.
pub open spec fn parse_block(
    toks: Seq<Seq<char>>,
    pos: int,
    table: Symbols,
    inside: bool,
) -> ParsedBody
    decreases toks.len() - pos, 70int,
{
    match expect(toks, pos, "{"@) {
        Err(err) => Err(err),
        Ok(p) => match parse_stmts(toks, p, table, inside, Seq::empty()) {
            Err(err) => Err(err),
            Ok((body, q, t2)) => if p <= q <= toks.len() {
                Ok((body, q, t2))
            } else {
                Err(ErrorKind::UnexpectedEndOfProgram)
            },
        },
    }
}

/// `( condition ) { statements }` with the opening bracket at `pos`.
pub open spec fn parse_arm(toks: Seq<Seq<char>>, pos: int, table: Symbols, inside: bool) -> Result<
    ((Expr, Seq<Expr>), int, Symbols),
    ErrorKind,
>
    decreases toks.len() - pos, 80int,
{
    match parse_condition(toks, pos, table) {
        Err(err) => Err(err),
        Ok((cond, p)) => if pos < p {
            match parse_block(toks, p, table, inside) {
                Err(err) => Err(err),
                Ok((body, q, t2)) => Ok(((cond, body), q, t2)),
            }
        } else {
            Err(ErrorKind::UnexpectedEndOfProgram)
        },
    }
}

/// The `elif` arms from `pos` on; `before` holds the arms already read.
pub open spec fn parse_elifs(
    toks: Seq<Seq<char>>,
    pos: int,
    table: Symbols,
    inside: bool,
    before: Seq<(Expr, Seq<Expr>)>,
) -> ParsedArms
    decreases toks.len() - pos, 90int,
{
    if at(toks, pos, "elif"@) {
        match parse_arm(toks, pos + 1, table, inside) {
            Err(err) => Err(err),
            Ok((arm, p, t2)) => if pos < p <= toks.len() {
                parse_elifs(toks, p, t2, inside, before.push(arm))
            } else {
                Err(ErrorKind::UnexpectedEndOfProgram)
            },
        }
    } else {
        Ok((before, pos, table))
    }
}

/// `if ( condition ) { … }`, its `elif` arms and its `else` body, with
/// `if` at `pos`.
pub open spec fn parse_if(toks: Seq<Seq<char>>, pos: int, table: Symbols, inside: bool) -> ParsedStmt
    decreases toks.len() - pos, 40int,
{
    if pos < 0 || pos >= toks.len() {
        Err(ErrorKind::UnexpectedEndOfProgram)
    } else {
        match parse_arm(toks, pos + 1, table, inside) {
            Err(err) => Err(err),
            Ok(((cond, body), p, t1)) => if pos < p <= toks.len() {
                match parse_elifs(toks, p, t1, inside, Seq::empty()) {
                    Err(err) => Err(err),
                    Ok((elifs, q, t2)) => if at(toks, q, "else"@) && pos < q {
                        match parse_block(toks, q + 1, t2, inside) {
                            Err(err) => Err(err),
                            Ok((other, r, t3)) => Ok(
                                (
                                    Expr::IEE(Box::new(cond), body, elifs, Some(other)),
                                    r,
                                    t3,
                                ),
                            ),
                        }
                    } else {
                        Ok((Expr::IEE(Box::new(cond), body, elifs, None), q, t2))
                    },
                }
            } else {
                Err(ErrorKind::UnexpectedEndOfProgram)
            },
        }
    }
}

/// `while ( condition ) { … }` with `while` at `pos`.
pub open spec fn parse_while(toks: Seq<Seq<char>>, pos: int, table: Symbols, inside: bool) -> ParsedStmt
    decreases toks.len() - pos, 40int,
{
    if pos < 0 || pos >= toks.len() {
        Err(ErrorKind::UnexpectedEndOfProgram)
    } else {
        match parse_arm(toks, pos + 1, table, inside) {
            Err(err) => Err(err),
            Ok(((cond, body), p, t1)) => Ok((Expr::While(Box::new(cond), body), p, t1)),
        }
    }
}

/// `for ( name ; condition ; name = value ) { … }` with `for` at `pos`.
/// The loop variable has been declared before.
pub open spec fn parse_for(toks: Seq<Seq<char>>, pos: int, table: Symbols, inside: bool) -> ParsedStmt
    decreases toks.len() - pos, 40int,
{
    if pos < 0 || pos >= toks.len() {
        Err(ErrorKind::UnexpectedEndOfProgram)
    } else {
        match expect(toks, pos + 1, "("@) {
            Err(err) => Err(err),
            Ok(_) => match expect_name(toks, pos + 2) {
                Err(err) => Err(err),
                Ok(var) => if find(table.vars, var) is None {
                    Err(ErrorKind::VariableNotFound(var))
                } else {
                    match expect(toks, pos + 3, ";"@) {
                        Err(err) => Err(err),
                        Ok(_) => match parse_expr(toks, pos + 4, table) {
                            Err(err) => Err(err),
                            Ok((cond, p)) => match expect(toks, p, ";"@) {
                                Err(err) => Err(err),
                                Ok(m2) => match parse_assignment(toks, m2, table) {
                                    Err(err) => Err(err),
                                    Ok((step, m3, t1)) => match expect(toks, m3, ")"@) {
                                        Err(err) => Err(err),
                                        Ok(m4) => if pos < m4 {
                                            match parse_block(toks, m4, t1, inside) {
                                                Err(err) => Err(err),
                                                Ok((body, q, t2)) => Ok(
                                                    (
                                                        Expr::For(
                                                            var,
                                                            Box::new(cond),
                                                            Box::new(step),
                                                            body,
                                                        ),
                                                        q,
                                                        t2,
                                                    ),
                                                ),
                                            }
                                        } else {
                                            Err(ErrorKind::UnexpectedEndOfProgram)
                                        },
                                    },
                                },
                            },
                        },
                    }
                },
            },
        }
    }
}

/// `func name ( parameters ) : type { … }` with `func` at `pos`. The
/// function is known inside its own body, and so are its parameters;
/// what the body declares is forgotten after it. The types are kept
/// under the names of their tags.
pub open spec fn parse_func(toks: Seq<Seq<char>>, pos: int, table: Symbols) -> ParsedStmt
    decreases toks.len() - pos, 40int,
{
    if pos < 0 || pos >= toks.len() {
        Err(ErrorKind::UnexpectedEndOfProgram)
    } else {
        match expect_name(toks, pos + 1) {
            Err(err) => Err(err),
            Ok(name) => match expect(toks, pos + 2, "("@) {
                Err(err) => Err(err),
                Ok(_) => {
                    let ps = if at(toks, pos + 3, ")"@) {
                        Ok((Seq::empty(), pos + 4))
                    } else {
                        parse_params(toks, pos + 3, Seq::empty())
                    };
                    match ps {
                        Err(err) => Err(err),
                        Ok((params, p)) => match expect(toks, p, ":"@) {
                            Err(err) => Err(err),
                            Ok(_) => match expect_name(toks, p + 1) {
                                Err(err) => Err(err),
                                Ok(ret) => if pos < p {
                                    let kept = canonical_params(params);
                                    let inner = Symbols {
                                        vars: declare_params(table.vars, kept, 0),
                                        funcs: bind(
                                            table.funcs,
                                            name,
                                            FunctionEntry {
                                                name,
                                                params: kept,
                                                body: Seq::empty(),
                                                return_type: canonical(ret),
                                            },
                                        ),
                                    };
                                    match parse_block(toks, p + 2, inner, true) {
                                        Err(err) => Err(err),
                                        Ok((body, q, _)) => Ok(
                                            (
                                                Expr::FuncDef(
                                                    name,
                                                    typed_params(params),
                                                    type_of_name(ret),
                                                    body,
                                                ),
                                                q,
                                                Symbols {
                                                    funcs: bind(
                                                        table.funcs,
                                                        name,
                                                        FunctionEntry {
                                                            name,
                                                            params: kept,
                                                            body,
                                                            return_type: canonical(ret),
                                                        },
                                                    ),
                                                    ..table
                                                },
                                            ),
                                        ),
                                    }
                                } else {
                                    Err(ErrorKind::UnexpectedEndOfProgram)
                                },
                            },
                        },
                    }
                },
            },
        }
    }
}

/// The cases of a `switch` from `pos` on: `case value { … }`.
pub open spec fn parse_cases(
    toks: Seq<Seq<char>>,
    pos: int,
    table: Symbols,
    inside: bool,
    before: Seq<(Expr, Seq<Expr>)>,
) -> ParsedArms
    decreases toks.len() - pos, 90int,
{
    if at(toks, pos, "case"@) {
        match parse_expr(toks, pos + 1, table) {
            Err(err) => Err(err),
            Ok((value, p)) => match parse_block(toks, p, table, inside) {
                Err(err) => Err(err),
                Ok((body, q, t2)) => if pos < q <= toks.len() {
                    parse_cases(toks, q, t2, inside, before.push((value, body)))
                } else {
                    Err(ErrorKind::UnexpectedEndOfProgram)
                },
            },
        }
    } else {
        Ok((before, pos, table))
    }
}

/// `switch ( value ) { cases default { … } }` with `switch` at `pos`.
pub open spec fn parse_switch(toks: Seq<Seq<char>>, pos: int, table: Symbols, inside: bool) -> ParsedStmt
    decreases toks.len() - pos, 40int,
{
    if pos < 0 || pos >= toks.len() {
        Err(ErrorKind::UnexpectedEndOfProgram)
    } else {
        match parse_condition(toks, pos + 1, table) {
            Err(err) => Err(err),
            Ok((subject, p)) => match expect(toks, p, "{"@) {
                Err(err) => Err(err),
                Ok(m1) => if pos < m1 {
                    match parse_cases(toks, m1, table, inside, Seq::empty()) {
                        Err(err) => Err(err),
                        Ok((cases, q, t1)) => if at(toks, q, "default"@) && pos < q {
                            match parse_block(toks, q + 1, t1, inside) {
                                Err(err) => Err(err),
                                Ok((other, r, t2)) => match expect(toks, r, "}"@) {
                                    Err(err) => Err(err),
                                    Ok(end) => Ok(
                                        (
                                            Expr::Switch(Box::new(subject), cases, Some(other)),
                                            end,
                                            t2,
                                        ),
                                    ),
                                },
                            }
                        } else {
                            match expect(toks, q, "}"@) {
                                Err(err) => Err(err),
                                Ok(end) => Ok(
                                    (Expr::Switch(Box::new(subject), cases, None), end, t1),
                                ),
                            }
                        },
                    }
                } else {
                    Err(ErrorKind::UnexpectedEndOfProgram)
                },
            },
        }
    }
}

/// The statements of a whole program from `pos` on; `before` holds the
/// statements already read.
pub open spec fn parse_program(
    toks: Seq<Seq<char>>,
    pos: int,
    table: Symbols,
    before: Seq<Expr>,
) -> Result<(Seq<Expr>, Symbols), ErrorKind>
    decreases toks.len() - pos,
{
    if pos < 0 || pos >= toks.len() {
        Ok((before, table))
    } else {
        match parse_stmt(toks, pos, table, false) {
            Err(err) => Err(err),
            Ok((s, p, t2)) => if pos < p <= toks.len() {
                parse_program(toks, p, t2, before.push(s))
            } else {
                Err(ErrorKind::UnexpectedEndOfProgram)
            },
        }
    }
}

/// The tree of a program given by its tokens, and the names that it
/// declares on top of those of `table`. No tokens are no program.
pub open spec fn parse_tokens(toks: Seq<Seq<char>>, table: Symbols) -> Result<
    (Seq<Expr>, Symbols),
    ErrorKind,
> {
    if toks.len() == 0 {
        Err(ErrorKind::NoProgram)
    } else {
        parse_program(toks, 0, table, Seq::empty())
    }
}

} // verus!
