//! Which trees the parser builds: the statements that it accepts under a
//! table of names, and the names that they declare.

use vstd::prelude::*;
use crate::ast::Expr;
use crate::checker::{literal_type};
use crate::env::{bind, find, lookup, unbind};
use crate::error_handler::ErrorKind;
use crate::number::{MAX_UNITS, SCALE};
use crate::parser::grammar::{
    at,
    canonical,
    canonical_params,
    checked_value,
    declare_params,
    expect,
    expect_name,
    is_name,
    known_value,
    parse_arm,
    parse_assignment,
    parse_block,
    parse_cases,
    parse_condition,
    parse_elifs,
    parse_expr,
    parse_for,
    parse_func,
    parse_if,
    parse_let,
    parse_params,
    parse_program,
    parse_stmt,
    parse_stmts,
    parse_switch,
    parse_while,
    typed_params,
    Symbols,
};
use crate::parser::round_trip::{lemma_parsed_tier, well_formed};
use crate::types::{name_of_type, type_of_name, Type};
use crate::var_func::{FunctionEntry, VariableEntry};

verus! {

/// The parameters with the names of their types.
pub open spec fn named_params(params: Seq<(Seq<char>, Type)>) -> Seq<(Seq<char>, Seq<char>)> {
    Seq::new(params.len(), |i: int| (params[i].0, name_of_type(params[i].1)))
}

/// The names declared after an assignment that the parser accepts when
/// the names of `table` are declared; `None` for an assignment that it
/// does not accept, and for every other node.
pub open spec fn assigns(s: Expr, table: Symbols) -> Option<Symbols> {
    match s {
        Expr::Assign(name, value) => match lookup(table.vars, name) {
            Some(entry) => if is_name(name) && well_formed(*value, table) {
                match checked_value(table, entry.typ, *value) {
                    Ok((node, known)) => if node == *value {
                        Some(
                            Symbols {
                                vars: bind(
                                    table.vars,
                                    name,
                                    VariableEntry { name, typ: entry.typ, value: known },
                                ),
                                ..table
                            },
                        )
                    } else {
                        None
                    },
                    Err(_) => None,
                }
            } else {
                None
            },
            None => None,
        },
        _ => None,
    }
}

/// The names declared after a statement that the parser accepts when the
/// names of `table` are declared; `None` for a statement that it does
/// not accept. `inside` says whether the statement stands in the body of
/// a function.
pub open spec fn declares(s: Expr, table: Symbols, inside: bool) -> Option<Symbols>
    decreases s, 1nat, 0nat,
{
    match s {
        Expr::Let(name, tag, init) => {
            let typ = name_of_type(tag);
            if is_name(name) && find(table.vars, name) is None && well_formed(*init, table) {
                match checked_value(table, typ, *init) {
                    Ok((node, known)) => if node == *init {
                        Some(
                            Symbols {
                                vars: bind(
                                    table.vars,
                                    name,
                                    VariableEntry { name, typ, value: known },
                                ),
                                ..table
                            },
                        )
                    } else {
                        None
                    },
                    Err(_) => None,
                }
            } else {
                None
            }
        },
        Expr::Assign(_, _) => assigns(s, table),
        Expr::Del(name) => if is_name(name) && find(table.vars, name) is Some {
            Some(Symbols { vars: unbind(table.vars, name), ..table })
        } else {
            None
        },
        Expr::Return(value) => if inside && well_formed(*value, table) {
            Some(table)
        } else {
            None
        },
        Expr::IEE(cond, body, elifs, otherwise) => if well_formed(*cond, table) {
            match declares_body(body, 0, table, inside) {
                Some(t1) => match declares_arms(elifs, 0, t1, inside) {
                    Some(t2) => match otherwise {
                        Some(b) => declares_body(b, 0, t2, inside),
                        None => Some(t2),
                    },
                    None => None,
                },
                None => None,
            }
        } else {
            None
        },
        Expr::While(cond, body) => if well_formed(*cond, table) {
            declares_body(body, 0, table, inside)
        } else {
            None
        },
        Expr::For(var, cond, step, body) => if is_name(var) && find(table.vars, var) is Some
            && well_formed(*cond, table) {
            match assigns(*step, table) {
                Some(t1) => declares_body(body, 0, t1, inside),
                None => None,
            }
        } else {
            None
        },
        Expr::FuncDef(name, params, ret, body) => if is_name(name) && forall|i: int|
            0 <= i < params.len() ==> is_name(#[trigger] params[i].0) {
            let kept = named_params(params);
            let inner = Symbols {
                vars: declare_params(table.vars, kept, 0),
                funcs: bind(
                    table.funcs,
                    name,
                    FunctionEntry {
                        name,
                        params: kept,
                        body: Seq::empty(),
                        return_type: name_of_type(ret),
                    },
                ),
            };
            match declares_body(body, 0, inner, true) {
                Some(_) => Some(
                    Symbols {
                        funcs: bind(
                            table.funcs,
                            name,
                            FunctionEntry {
                                name,
                                params: kept,
                                body,
                                return_type: name_of_type(ret),
                            },
                        ),
                        ..table
                    },
                ),
                None => None,
            }
        } else {
            None
        },
        Expr::Switch(subject, cases, default) => if well_formed(*subject, table) {
            match declares_arms(cases, 0, table, inside) {
                Some(t1) => match default {
                    Some(b) => declares_body(b, 0, t1, inside),
                    None => Some(t1),
                },
                None => None,
            }
        } else {
            None
        },
        _ => if well_formed(s, table) {
            Some(table)
        } else {
            None
        },
    }
}

/// The names declared after the statements of a body from `from` on.
pub open spec fn declares_body(body: Seq<Expr>, from: int, table: Symbols, inside: bool) -> Option<
    Symbols,
>
    decreases body, 0nat, body.len() - from,
{
    if 0 <= from < body.len() {
        match declares(body[from], table, inside) {
            Some(t) => declares_body(body, from + 1, t, inside),
            None => None,
        }
    } else {
        Some(table)
    }
}

/// The names declared after the arms from `from` on.
pub open spec fn declares_arms(
    arms: Seq<(Expr, Seq<Expr>)>,
    from: int,
    table: Symbols,
    inside: bool,
) -> Option<Symbols>
    decreases arms, 0nat, arms.len() - from,
{
    if 0 <= from < arms.len() {
        if well_formed(arms[from].0, table) {
            match declares_body(arms[from].1, 0, table, inside) {
                Some(t) => declares_arms(arms, from + 1, t, inside),
                None => None,
            }
        } else {
            None
        }
    } else {
        Some(table)
    }
}

/// Whether a node is an expression.
pub open spec fn is_expression(e: Expr) -> bool {
    e is Int || e is Float || e is Str || e is Boolean || e is VarRef || e is Binary || e is Unary
        || e is FuncCall
}

/// A parsed expression is well formed, and it is an expression.
pub proof fn lemma_parsed_expr(toks: Seq<Seq<char>>, pos: int, table: Symbols)
    ensures
        parse_expr(toks, pos, table) matches Ok((e, p)) ==> well_formed(e, table) && is_expression(
            e,
        ) && pos < p <= toks.len(),
{
    lemma_parsed_tier(toks, pos, table, 0);
}

/// A value that has been checked on assignment stays as it is when it
/// is checked again.
pub proof fn lemma_checked_value_is_settled(table: Symbols, typ: Seq<char>, value: Expr)
    requires
        well_formed(value, table),
    ensures
        checked_value(table, typ, value) matches Ok((node, known)) ==> checked_value(
            table,
            typ,
            node,
        ) == Ok::<(Expr, Option<Expr>), ErrorKind>((node, known)) && well_formed(node, table),
{
    reveal_strlit("int");
    reveal_strlit("float");
    reveal_strlit("string");
    reveal_strlit("bool");
    assert("int"@.len() == 3 && "float"@.len() == 5 && "string"@.len() == 6 && "bool"@.len() == 4);
    match checked_value(table, typ, value) {
        Ok((node, known)) => {
            if literal_type(value) is Some {
                assert(known_value(table, value) == value);
                assert(known_value(table, node) == node);
                if value is Int && typ == "float"@ {
                    assert(node == Expr::Float(value->Int_0 * SCALE));
                    assert(0 <= value->Int_0 * SCALE <= MAX_UNITS);
                }
            }
        },
        Err(_) => {},
    }
}

/// The name of the type of a declaration that passes the check names
/// the tag of that type.
pub proof fn lemma_declarable_is_canonical(typ: Seq<char>)
    ensures
        crate::checker::is_declarable(typ) ==> canonical(typ) == typ,
{
    reveal_strlit("int");
    reveal_strlit("float");
    reveal_strlit("string");
    reveal_strlit("bool");
    assert("int"@.len() == 3 && "float"@.len() == 5 && "string"@.len() == 6 && "bool"@.len() == 4);
    assert("int"@[0] == 'i' && "float"@[0] == 'f' && "string"@[0] == 's' && "bool"@[0] == 'b');
}

/// A parsed declaration is accepted.
pub proof fn lemma_parsed_let(toks: Seq<Seq<char>>, pos: int, table: Symbols, inside: bool)
    ensures
        parse_let(toks, pos, table) matches Ok((s, p, t)) ==> declares(s, table, inside) == Some(t)
            && s is Let,
{
    match parse_let(toks, pos, table) {
        Ok((s, p, t)) => {
            let name = expect_name(toks, pos + 1)->Ok_0;
            let typ = expect_name(toks, pos + 3)->Ok_0;
            lemma_parsed_expr(toks, pos + 5, table);
            let init = parse_expr(toks, pos + 5, table)->Ok_0.0;
            lemma_checked_value_is_settled(table, typ, init);
            lemma_declarable_is_canonical(typ);
            let node = checked_value(table, typ, init)->Ok_0.0;
            assert(s == Expr::Let(name, type_of_name(typ), Box::new(node)));
        },
        Err(_) => {},
    }
}

/// A parsed assignment is accepted.
pub proof fn lemma_parsed_assignment(toks: Seq<Seq<char>>, pos: int, table: Symbols)
    ensures
        parse_assignment(toks, pos, table) matches Ok((s, p, t)) ==> assigns(s, table) == Some(t)
            && s is Assign && pos < p <= toks.len(),
{
    match parse_assignment(toks, pos, table) {
        Ok((s, p, t)) => {
            let name = expect_name(toks, pos)->Ok_0;
            let entry = lookup(table.vars, name)->0;
            lemma_parsed_expr(toks, pos + 2, table);
            let value = parse_expr(toks, pos + 2, table)->Ok_0.0;
            lemma_checked_value_is_settled(table, entry.typ, value);
        },
        Err(_) => {},
    }
}

/// Whether the parameters and their types have names.
pub open spec fn all_named(params: Seq<(Seq<char>, Seq<char>)>) -> bool {
    forall|i: int| 0 <= i < params.len() ==> is_name((#[trigger] params[i]).0) && is_name(params[i].1)
}

/// The parameters that are parsed have names.
pub proof fn lemma_parsed_params(
    toks: Seq<Seq<char>>,
    pos: int,
    before: Seq<(Seq<char>, Seq<char>)>,
)
    requires
        all_named(before),
    ensures
        parse_params(toks, pos, before) matches Ok((params, p)) ==> pos < p <= toks.len()
            && all_named(params),
    decreases toks.len() - pos,
{
    match expect_name(toks, pos) {
        Ok(name) => match expect(toks, pos + 1, ":"@) {
            Ok(_) => match expect_name(toks, pos + 2) {
                Ok(typ) => {
                    let more = before.push((name, typ));
                    assert forall|i: int| 0 <= i < more.len() implies is_name(
                        (#[trigger] more[i]).0,
                    ) && is_name(more[i].1) by {
                        if i < before.len() {
                            assert(more[i] == before[i]);
                        }
                    }
                    assert(all_named(more));
                    if at(toks, pos + 3, ","@) {
                        lemma_parsed_params(toks, pos + 4, more);
                    }
                },
                Err(_) => {},
            },
            Err(_) => {},
        },
        Err(_) => {},
    }
}

/// A parsed statement is accepted, and it ends after it starts.
pub proof fn lemma_parsed_stmt(toks: Seq<Seq<char>>, pos: int, table: Symbols, inside: bool)
    ensures
        parse_stmt(toks, pos, table, inside) matches Ok((s, p, t)) ==> declares(s, table, inside)
            == Some(t),
    decreases toks.len() - pos, 50int,
{
    if 0 <= pos < toks.len() {
        let t = toks[pos];
        if t == "let"@ {
            lemma_parsed_let(toks, pos, table, inside);
        } else if t == "del"@ {
        } else if t == "return"@ {
            lemma_parsed_expr(toks, pos + 1, table);
        } else if t == "if"@ {
            lemma_parsed_if(toks, pos, table, inside);
        } else if t == "while"@ {
            lemma_parsed_while(toks, pos, table, inside);
        } else if t == "for"@ {
            lemma_parsed_for(toks, pos, table, inside);
        } else if t == "func"@ {
            lemma_parsed_func(toks, pos, table, inside);
        } else if t == "switch"@ {
            lemma_parsed_switch(toks, pos, table, inside);
        } else if is_name(t) && at(toks, pos + 1, "="@) {
            lemma_parsed_assignment(toks, pos, table);
        } else {
            lemma_parsed_expr(toks, pos, table);
        }
    }
}

/// Parsed statements are accepted one after another, and they come
/// after the statements read before them.
pub proof fn lemma_parsed_stmts(
    toks: Seq<Seq<char>>,
    pos: int,
    table: Symbols,
    inside: bool,
    before: Seq<Expr>,
)
    ensures
        parse_stmts(toks, pos, table, inside, before) matches Ok((body, p, t)) ==> body.len()
            >= before.len() && body.subrange(0, before.len() as int) == before && declares_body(
            body,
            before.len() as int,
            table,
            inside,
        ) == Some(t),
    decreases toks.len() - pos, 60int,
{
    if 0 <= pos < toks.len() && toks[pos] != "}"@ {
        lemma_parsed_stmt(toks, pos, table, inside);
        match parse_stmt(toks, pos, table, inside) {
            Ok((s, p, t2)) => {
                if pos < p <= toks.len() {
                    lemma_parsed_stmts(toks, p, t2, inside, before.push(s));
                    match parse_stmts(toks, p, t2, inside, before.push(s)) {
                        Ok((body, q, t3)) => {
                            assert(body.subrange(0, before.len() as int + 1)[before.len() as int]
                                == body[before.len() as int]);
                            assert(body[before.len() as int] == s);
                            assert(body.subrange(0, before.len() as int) =~= before.push(
                                s,
                            ).subrange(0, before.len() as int));
                            assert(before.push(s).subrange(0, before.len() as int) =~= before);
                        },
                        Err(_) => {},
                    }
                }
            },
            Err(_) => {},
        }
    } else if 0 <= pos < toks.len() {
        assert(before.subrange(0, before.len() as int) =~= before);
    }
}

/// A parsed body is accepted.
pub proof fn lemma_parsed_block(toks: Seq<Seq<char>>, pos: int, table: Symbols, inside: bool)
    ensures
        parse_block(toks, pos, table, inside) matches Ok((body, p, t)) ==> declares_body(
            body,
            0,
            table,
            inside,
        ) == Some(t),
    decreases toks.len() - pos, 70int,
{
    match expect(toks, pos, "{"@) {
        Ok(p) => {
            lemma_parsed_stmts(toks, p, table, inside, Seq::empty());
        },
        Err(_) => {},
    }
}

/// A parsed condition with its body is accepted.
pub proof fn lemma_parsed_arm(toks: Seq<Seq<char>>, pos: int, table: Symbols, inside: bool)
    ensures
        parse_arm(toks, pos, table, inside) matches Ok(((cond, body), p, t)) ==> well_formed(
            cond,
            table,
        ) && declares_body(body, 0, table, inside) == Some(t),
    decreases toks.len() - pos, 80int,
{
    match expect(toks, pos, "("@) {
        Ok(m1) => {
            lemma_parsed_expr(toks, m1, table);
        },
        Err(_) => {},
    }
    match parse_condition(toks, pos, table) {
        Ok((cond, p)) => {
            if pos < p {
                lemma_parsed_block(toks, p, table, inside);
            }
        },
        Err(_) => {},
    }
}

/// Parsed `elif` arms are accepted one after another.
pub proof fn lemma_parsed_elifs(
    toks: Seq<Seq<char>>,
    pos: int,
    table: Symbols,
    inside: bool,
    before: Seq<(Expr, Seq<Expr>)>,
)
    ensures
        parse_elifs(toks, pos, table, inside, before) matches Ok((arms, p, t)) ==> arms.len()
            >= before.len() && arms.subrange(0, before.len() as int) == before && declares_arms(
            arms,
            before.len() as int,
            table,
            inside,
        ) == Some(t),
    decreases toks.len() - pos, 90int,
{
    if at(toks, pos, "elif"@) {
        lemma_parsed_arm(toks, pos + 1, table, inside);
        match parse_arm(toks, pos + 1, table, inside) {
            Ok((arm, p, t2)) => {
                if pos < p <= toks.len() {
                    lemma_parsed_elifs(toks, p, t2, inside, before.push(arm));
                    match parse_elifs(toks, p, t2, inside, before.push(arm)) {
                        Ok((arms, q, t3)) => {
                            assert(arms.subrange(0, before.len() as int + 1)[before.len() as int]
                                == arms[before.len() as int]);
                            assert(arms[before.len() as int] == arm);
                            assert(arms.subrange(0, before.len() as int) =~= before.push(
                                arm,
                            ).subrange(0, before.len() as int));
                            assert(before.push(arm).subrange(0, before.len() as int) =~= before);
                        },
                        Err(_) => {},
                    }
                }
            },
            Err(_) => {},
        }
    } else {
        assert(before.subrange(0, before.len() as int) =~= before);
    }
}

/// A parsed `if` is accepted.
pub proof fn lemma_parsed_if(toks: Seq<Seq<char>>, pos: int, table: Symbols, inside: bool)
    ensures
        parse_if(toks, pos, table, inside) matches Ok((s, p, t)) ==> declares(s, table, inside)
            == Some(t),
    decreases toks.len() - pos, 40int,
{
    if 0 <= pos < toks.len() {
        lemma_parsed_arm(toks, pos + 1, table, inside);
        match parse_arm(toks, pos + 1, table, inside) {
            Ok(((cond, body), p, t1)) => {
                if pos < p <= toks.len() {
                    lemma_parsed_elifs(toks, p, t1, inside, Seq::empty());
                    match parse_elifs(toks, p, t1, inside, Seq::empty()) {
                        Ok((elifs, q, t2)) => {
                            if at(toks, q, "else"@) && pos < q {
                                lemma_parsed_block(toks, q + 1, t2, inside);
                            }
                        },
                        Err(_) => {},
                    }
                }
            },
            Err(_) => {},
        }
    }
}

/// A parsed `while` is accepted.
pub proof fn lemma_parsed_while(toks: Seq<Seq<char>>, pos: int, table: Symbols, inside: bool)
    ensures
        parse_while(toks, pos, table, inside) matches Ok((s, p, t)) ==> declares(s, table, inside)
            == Some(t),
    decreases toks.len() - pos, 40int,
{
    if 0 <= pos < toks.len() {
        lemma_parsed_arm(toks, pos + 1, table, inside);
    }
}

/// A parsed `for` is accepted.
pub proof fn lemma_parsed_for(toks: Seq<Seq<char>>, pos: int, table: Symbols, inside: bool)
    ensures
        parse_for(toks, pos, table, inside) matches Ok((s, p, t)) ==> declares(s, table, inside)
            == Some(t),
    decreases toks.len() - pos, 40int,
{
    if 0 <= pos < toks.len() {
        lemma_parsed_expr(toks, pos + 4, table);
        match parse_expr(toks, pos + 4, table) {
            Ok((cond, p)) => match expect(toks, p, ";"@) {
                Ok(m2) => {
                    lemma_parsed_assignment(toks, m2, table);
                    match parse_assignment(toks, m2, table) {
                        Ok((step, m3, t1)) => match expect(toks, m3, ")"@) {
                            Ok(m4) => {
                                if pos < m4 {
                                    lemma_parsed_block(toks, m4, t1, inside);
                                }
                            },
                            Err(_) => {},
                        },
                        Err(_) => {},
                    }
                },
                Err(_) => {},
            },
            Err(_) => {},
        }
    }
}

/// What the parser keeps of the parameters is what the tree holds of
/// them.
pub proof fn lemma_kept_params(params: Seq<(Seq<char>, Seq<char>)>)
    ensures
        named_params(typed_params(params)) == canonical_params(params),
{
    assert(named_params(typed_params(params)) =~= canonical_params(params));
}

/// A parsed declaration of a function is accepted.
pub proof fn lemma_parsed_func(toks: Seq<Seq<char>>, pos: int, table: Symbols, inside: bool)
    ensures
        parse_func(toks, pos, table) matches Ok((s, p, t)) ==> declares(s, table, inside) == Some(
            t,
        ),
    decreases toks.len() - pos, 40int,
{
    if 0 <= pos < toks.len() {
        match expect_name(toks, pos + 1) {
            Ok(name) => match expect(toks, pos + 2, "("@) {
                Ok(_) => {
                    let ps = if at(toks, pos + 3, ")"@) {
                        Ok((Seq::empty(), pos + 4))
                    } else {
                        parse_params(toks, pos + 3, Seq::empty())
                    };
                    if !at(toks, pos + 3, ")"@) {
                        lemma_parsed_params(toks, pos + 3, Seq::empty());
                    }
                    match ps {
                        Ok((params, p)) => match expect(toks, p, ":"@) {
                            Ok(_) => match expect_name(toks, p + 1) {
                                Ok(ret) => {
                                    if pos < p {
                                        lemma_kept_params(params);
                                        let kept = canonical_params(params);
                                        let inner = Symbols {
                                            vars: declare_params(table.vars, kept, 0),
                                            funcs: bind(
                                                table.funcs,
                                                name,
                                                FunctionEntry {
                                                    name,
                                                    params: kept,
                                                    body: Seq::empty(),
                                                    return_type: canonical(ret),
                                                },
                                            ),
                                        };
                                        lemma_parsed_block(toks, p + 2, inner, true);
                                        match parse_block(toks, p + 2, inner, true) {
                                            Ok((body, q, _)) => {
                                                let s = Expr::FuncDef(
                                                    name,
                                                    typed_params(params),
                                                    type_of_name(ret),
                                                    body,
                                                );
                                                assert forall|i: int|
                                                    0 <= i < typed_params(
                                                        params,
                                                    ).len() implies is_name(
                                                    #[trigger] typed_params(params)[i].0,
                                                ) by {
                                                    assert(is_name(params[i].0));
                                                    assert(typed_params(params)[i].0
                                                        == params[i].0);
                                                }
                                                assert(parse_func(toks, pos, table) is Ok);
                                                assert(parse_func(toks, pos, table)->Ok_0.0 == s);
                                            },
                                            Err(_) => {},
                                        }
                                    }
                                },
                                Err(_) => {},
                            },
                            Err(_) => {},
                        },
                        Err(_) => {},
                    }
                },
                Err(_) => {},
            },
            Err(_) => {},
        }
    }
}

/// Parsed cases are accepted one after another.
pub proof fn lemma_parsed_cases(
    toks: Seq<Seq<char>>,
    pos: int,
    table: Symbols,
    inside: bool,
    before: Seq<(Expr, Seq<Expr>)>,
)
    ensures
        parse_cases(toks, pos, table, inside, before) matches Ok((arms, p, t)) ==> arms.len()
            >= before.len() && arms.subrange(0, before.len() as int) == before && declares_arms(
            arms,
            before.len() as int,
            table,
            inside,
        ) == Some(t),
    decreases toks.len() - pos, 90int,
{
    if at(toks, pos, "case"@) {
        lemma_parsed_expr(toks, pos + 1, table);
        match parse_expr(toks, pos + 1, table) {
            Ok((value, p)) => {
                lemma_parsed_block(toks, p, table, inside);
                match parse_block(toks, p, table, inside) {
                    Ok((body, q, t2)) => {
                        if pos < q <= toks.len() {
                            let arm = (value, body);
                            lemma_parsed_cases(toks, q, t2, inside, before.push(arm));
                            match parse_cases(toks, q, t2, inside, before.push(arm)) {
                                Ok((arms, r, t3)) => {
                                    assert(arms.subrange(0, before.len() as int + 1)[before.len() as int]
                                        == arms[before.len() as int]);
                                    assert(arms[before.len() as int] == arm);
                                    assert(arms.subrange(0, before.len() as int) =~= before.push(
                                        arm,
                                    ).subrange(0, before.len() as int));
                                    assert(before.push(arm).subrange(0, before.len() as int)
                                        =~= before);
                                },
                                Err(_) => {},
                            }
                        }
                    },
                    Err(_) => {},
                }
            },
            Err(_) => {},
        }
    } else {
        assert(before.subrange(0, before.len() as int) =~= before);
    }
}

/// A parsed `switch` is accepted.
pub proof fn lemma_parsed_switch(toks: Seq<Seq<char>>, pos: int, table: Symbols, inside: bool)
    ensures
        parse_switch(toks, pos, table, inside) matches Ok((s, p, t)) ==> declares(s, table, inside)
            == Some(t),
    decreases toks.len() - pos, 40int,
{
    if 0 <= pos < toks.len() {
        match expect(toks, pos + 1, "("@) {
            Ok(m0) => {
                lemma_parsed_expr(toks, m0, table);
            },
            Err(_) => {},
        }
        match parse_condition(toks, pos + 1, table) {
            Ok((subject, p)) => match expect(toks, p, "{"@) {
                Ok(m1) => {
                    if pos < m1 {
                        lemma_parsed_cases(toks, m1, table, inside, Seq::empty());
                        match parse_cases(toks, m1, table, inside, Seq::empty()) {
                            Ok((cases, q, t1)) => {
                                if at(toks, q, "default"@) && pos < q {
                                    lemma_parsed_block(toks, q + 1, t1, inside);
                                }
                            },
                            Err(_) => {},
                        }
                    }
                },
                Err(_) => {},
            },
            Err(_) => {},
        }
    }
}

/// The statements of a parsed program are accepted one after another.
pub proof fn lemma_parsed_program(
    toks: Seq<Seq<char>>,
    pos: int,
    table: Symbols,
    before: Seq<Expr>,
)
    ensures
        parse_program(toks, pos, table, before) matches Ok((body, t)) ==> body.len()
            >= before.len() && body.subrange(0, before.len() as int) == before && declares_body(
            body,
            before.len() as int,
            table,
            false,
        ) == Some(t) && (0 <= pos < toks.len() ==> body.len() > before.len()),
    decreases toks.len() - pos,
{
    if 0 <= pos < toks.len() {
        lemma_parsed_stmt(toks, pos, table, false);
        match parse_stmt(toks, pos, table, false) {
            Ok((s, p, t2)) => {
                if pos < p <= toks.len() {
                    lemma_parsed_program(toks, p, t2, before.push(s));
                    match parse_program(toks, p, t2, before.push(s)) {
                        Ok((body, t3)) => {
                            assert(body.subrange(0, before.len() as int + 1)[before.len() as int]
                                == body[before.len() as int]);
                            assert(body[before.len() as int] == s);
                            assert(body.subrange(0, before.len() as int) =~= before.push(
                                s,
                            ).subrange(0, before.len() as int));
                            assert(before.push(s).subrange(0, before.len() as int) =~= before);
                        },
                        Err(_) => {},
                    }
                }
            },
            Err(_) => {},
        }
    } else {
        assert(before.subrange(0, before.len() as int) =~= before);
    }
}

} // verus!
