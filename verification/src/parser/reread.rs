//! Proofs that statements and programs that are written out are read back
//! as themselves.

use vstd::prelude::*;
use crate::ast::printer::{
    arms_tokens,
    block_tokens,
    body_tokens,
    expr_tokens,
    params_tokens,
    step_tokens,
    stmt_tokens,
    unary_sign,
};
use crate::ast::Expr;
use crate::env::{bind};
use crate::error_handler::ErrorKind;
use crate::literal::is_digit;
use crate::literal::written::{lemma_decimal_reads_back, lemma_whole_reads_back};
use crate::parser::accepted::{
    assigns,
    declares,
    declares_arms,
    declares_body,
    is_expression,
    named_params,
};
use crate::parser::grammar::{
    at,
    canonical,
    canonical_params,
    declare_params,
    expect,
    expect_name,
    is_letter,
    is_name,
    is_reserved,
    parse_arm,
    parse_assignment,
    parse_block,
    parse_cases,
    parse_condition,
    parse_del,
    parse_elifs,
    parse_expr,
    parse_expr_stmt,
    parse_for,
    parse_func,
    parse_if,
    parse_let,
    parse_params,
    parse_program,
    parse_return,
    parse_stmt,
    parse_stmts,
    parse_switch,
    parse_tokens,
    parse_while,
    typed_params,
    Symbols,
};
use crate::parser::round_trip::{
    holds_at,
    law_written_expression_reads_back,
    lemma_first_token,
    lemma_number_texts,
    lemma_part,
    stops,
    well_formed,
};
use crate::parser::words::{
    is_stop,
    lemma_keywords,
    lemma_marks,
    lemma_names,
    lemma_reserved,
    lemma_type_names,
};
use crate::types::{name_of_type, Type};
use crate::var_func::{FunctionEntry};

verus! {

/// Whether a token opens a statement that is no expression and no
/// assignment.
pub open spec fn opens_statement(t: Seq<char>) -> bool {
    t == "let"@ || t == "del"@ || t == "return"@ || t == "if"@ || t == "while"@ || t == "for"@ || t
        == "func"@ || t == "switch"@
}

/// Whether a token can stand first in a statement: it closes no body
/// and goes on no chain and no `switch`.
pub open spec fn can_start(t: Seq<char>) -> bool {
    t != "}"@ && t != "elif"@ && t != "else"@ && t != "case"@ && t != "default"@
}

/// Whether a chain of `if` can end before `pos`: neither `elif` nor
/// `else` stands there.
pub open spec fn quiet(toks: Seq<Seq<char>>, pos: int) -> bool {
    !at(toks, pos, "elif"@) && !at(toks, pos, "else"@)
}

/// The first token of a well-formed expression opens no statement of
/// another kind, can stand first in a statement, and is a name only
/// where the expression is a variable or a call.
pub proof fn lemma_first_expr_token(e: Expr, table: Symbols)
    requires
        well_formed(e, table),
    ensures
        expr_tokens(e).len() >= 1,
        !opens_statement(expr_tokens(e)[0]),
        can_start(expr_tokens(e)[0]),
        is_name(expr_tokens(e)[0]) ==> (e is VarRef && expr_tokens(e).len() == 1) || (e is FuncCall
            && expr_tokens(e).len() >= 2 && expr_tokens(e)[1] == "("@),
{
    lemma_first_token(e, table);
    lemma_marks();
    lemma_keywords();
    let t = expr_tokens(e)[0];
    assert("}"@[0] == '}' && "("@[0] == '(' && "-"@[0] == '-' && "!"@[0] == '!');
    match e {
        Expr::Int(i) => {
            lemma_number_texts(i, 0);
            lemma_whole_reads_back(i);
            assert(is_digit(t[0]));
        },
        Expr::Float(u) => {
            lemma_number_texts(0, u);
            lemma_decimal_reads_back(u);
            assert(is_digit(t[0]));
        },
        Expr::Str(s) => {
            assert(t[0] == '"');
        },
        Expr::Boolean(b) => {
            lemma_reserved(t);
        },
        Expr::VarRef(name) => {
            lemma_names(name);
            assert(is_letter(t[0]));
        },
        Expr::Unary(op, operand) => {
            assert(t == unary_sign(op));
            assert(t[0] == '-' || t[0] == '!');
        },
        Expr::Binary(_, _, _) => {
            assert(t == "("@);
        },
        Expr::FuncCall(name, args) => {
            lemma_names(name);
            assert(t == name);
            assert(is_letter(t[0]));
            assert(expr_tokens(e)[1] == "("@);
        },
        _ => {},
    }
}

/// A well-formed expression that is written as a statement reads back
/// as that statement.
pub proof fn lemma_expression_statement_rereads(
    e: Expr,
    table: Symbols,
    inside: bool,
    toks: Seq<Seq<char>>,
    pos: int,
)
    requires
        well_formed(e, table),
        holds_at(toks, pos, expr_tokens(e) + seq![";"@]),
    ensures
        parse_stmt(toks, pos, table, inside) == Ok::<(Expr, int, Symbols), ErrorKind>(
            (e, pos + expr_tokens(e).len() + 1, table),
        ),
{
    let written = expr_tokens(e);
    let whole = written + seq![";"@];
    let n = written.len() as int;
    lemma_first_expr_token(e, table);
    lemma_marks();
    assert(whole.subrange(0, n) =~= written);
    lemma_part(toks, pos, whole, 0, n);
    assert(toks[pos] == whole[0]);
    assert(toks[pos + n] == whole[n]);
    assert(toks[pos + n] == ";"@);
    assert(is_stop(toks[pos + n]));
    law_written_expression_reads_back(e, table, toks, pos);
    assert(";"@[0] == ';' && "="@[0] == '=' && "("@[0] == '(');
    if is_name(toks[pos]) {
        assert(toks[pos + 1] == whole[1]);
        assert(!at(toks, pos + 1, "="@));
    }
    assert(parse_expr_stmt(toks, pos, table) == Ok::<(Expr, int, Symbols), ErrorKind>(
        (e, pos + n + 1, table),
    ));
}

/// An accepted declaration that is written out reads back.
pub proof fn lemma_let_rereads(
    s: Expr,
    table: Symbols,
    inside: bool,
    toks: Seq<Seq<char>>,
    pos: int,
)
    requires
        s is Let,
        declares(s, table, inside) is Some,
        holds_at(toks, pos, stmt_tokens(s)),
    ensures
        parse_stmt(toks, pos, table, inside) == Ok::<(Expr, int, Symbols), ErrorKind>(
            (s, pos + stmt_tokens(s).len(), declares(s, table, inside)->0),
        ),
{
    match s {
        Expr::Let(name, tag, init) => {
            let typ = name_of_type(tag);
            let written = expr_tokens(*init);
            let whole = stmt_tokens(s);
            let n = whole.len() as int;
            assert(whole == seq!["let"@, name, ":"@, typ, "="@] + written + seq![";"@]);
            lemma_first_token(*init, table);
            lemma_type_names(tag);
            lemma_marks();
            assert(whole.subrange(5, n - 1) =~= written);
            lemma_part(toks, pos, whole, 5, n - 1);
            assert(toks[pos] == whole[0] && toks[pos + 1] == whole[1] && toks[pos + 2] == whole[2]
                && toks[pos + 3] == whole[3] && toks[pos + 4] == whole[4]);
            assert(toks[pos + n - 1] == whole[n - 1]);
            assert(whole[n - 1] == ";"@);
            assert(is_stop(toks[pos + n - 1]));
            law_written_expression_reads_back(*init, table, toks, pos + 5);
            assert(expect_name(toks, pos + 1) == Ok::<Seq<char>, ErrorKind>(name));
            assert(expect_name(toks, pos + 3) == Ok::<Seq<char>, ErrorKind>(typ));
            assert(parse_expr(toks, pos + 5, table) == Ok::<(Expr, int), ErrorKind>(
                (*init, pos + n - 1),
            ));
            assert(expect(toks, pos + n - 1, ";"@) == Ok::<int, ErrorKind>(pos + n));
            assert(parse_let(toks, pos, table) == Ok::<(Expr, int, Symbols), ErrorKind>(
                (s, pos + n, declares(s, table, inside)->0),
            ));
        },
        _ => {},
    }
}

/// An accepted assignment that is written without its `;` reads back
/// where something that ends an expression follows it.
pub proof fn lemma_step_rereads(s: Expr, table: Symbols, toks: Seq<Seq<char>>, pos: int)
    requires
        s is Assign,
        assigns(s, table) is Some,
        holds_at(toks, pos, step_tokens(s)),
        stops(toks, pos + step_tokens(s).len()),
    ensures
        parse_assignment(toks, pos, table) == Ok::<(Expr, int, Symbols), ErrorKind>(
            (s, pos + step_tokens(s).len(), assigns(s, table)->0),
        ),
        is_name(toks[pos]),
        at(toks, pos + 1, "="@),
{
    match s {
        Expr::Assign(name, value) => {
            let written = expr_tokens(*value);
            let whole = step_tokens(s);
            let n = whole.len() as int;
            assert(whole == seq![name, "="@] + written);
            lemma_first_token(*value, table);
            lemma_marks();
            assert(whole.subrange(2, n) =~= written);
            lemma_part(toks, pos, whole, 2, n);
            assert(toks[pos] == whole[0] && toks[pos + 1] == whole[1]);
            law_written_expression_reads_back(*value, table, toks, pos + 2);
            assert(expect_name(toks, pos) == Ok::<Seq<char>, ErrorKind>(name));
        },
        _ => {},
    }
}

/// An accepted assignment that is written out reads back.
pub proof fn lemma_assign_rereads(
    s: Expr,
    table: Symbols,
    inside: bool,
    toks: Seq<Seq<char>>,
    pos: int,
)
    requires
        s is Assign,
        declares(s, table, inside) is Some,
        holds_at(toks, pos, stmt_tokens(s)),
    ensures
        parse_stmt(toks, pos, table, inside) == Ok::<(Expr, int, Symbols), ErrorKind>(
            (s, pos + stmt_tokens(s).len(), declares(s, table, inside)->0),
        ),
{
    match s {
        Expr::Assign(name, value) => {
            let part = step_tokens(s);
            let whole = stmt_tokens(s);
            let n = whole.len() as int;
            assert(whole =~= part + seq![";"@]);
            assert(whole.subrange(0, n - 1) =~= part);
            lemma_part(toks, pos, whole, 0, n - 1);
            assert(toks[pos + n - 1] == whole[n - 1]);
            assert(whole[n - 1] == ";"@);
            assert(is_stop(toks[pos + n - 1]));
            lemma_step_rereads(s, table, toks, pos);
            lemma_reserved_opens(toks[pos]);
            assert(expect(toks, pos + n - 1, ";"@) == Ok::<int, ErrorKind>(pos + n));
        },
        _ => {},
    }
}

/// A token that opens a statement is a word of the language.
pub proof fn lemma_reserved_opens(t: Seq<char>)
    ensures
        opens_statement(t) ==> is_reserved(t),
{
}

/// An accepted deletion that is written out reads back.
pub proof fn lemma_del_rereads(
    s: Expr,
    table: Symbols,
    inside: bool,
    toks: Seq<Seq<char>>,
    pos: int,
)
    requires
        s is Del,
        declares(s, table, inside) is Some,
        holds_at(toks, pos, stmt_tokens(s)),
    ensures
        parse_stmt(toks, pos, table, inside) == Ok::<(Expr, int, Symbols), ErrorKind>(
            (s, pos + stmt_tokens(s).len(), declares(s, table, inside)->0),
        ),
{
    match s {
        Expr::Del(name) => {
            let whole = stmt_tokens(s);
            assert(whole == seq!["del"@, name, ";"@]);
            lemma_keywords();
            lemma_part(toks, pos, whole, 0, 3);
            assert(toks[pos] == whole[0] && toks[pos + 1] == whole[1] && toks[pos + 2]
                == whole[2]);
            assert(expect_name(toks, pos + 1) == Ok::<Seq<char>, ErrorKind>(name));
            assert(parse_del(toks, pos, table) == Ok::<(Expr, int, Symbols), ErrorKind>(
                (s, pos + 3, declares(s, table, inside)->0),
            ));
        },
        _ => {},
    }
}

/// An accepted `return` that is written out reads back.
pub proof fn lemma_return_rereads(
    s: Expr,
    table: Symbols,
    inside: bool,
    toks: Seq<Seq<char>>,
    pos: int,
)
    requires
        s is Return,
        declares(s, table, inside) is Some,
        holds_at(toks, pos, stmt_tokens(s)),
    ensures
        parse_stmt(toks, pos, table, inside) == Ok::<(Expr, int, Symbols), ErrorKind>(
            (s, pos + stmt_tokens(s).len(), declares(s, table, inside)->0),
        ),
{
    match s {
        Expr::Return(value) => {
            let written = expr_tokens(*value);
            let whole = stmt_tokens(s);
            let n = whole.len() as int;
            assert(whole == seq!["return"@] + written + seq![";"@]);
            lemma_first_token(*value, table);
            lemma_keywords();
            lemma_marks();
            assert(whole.subrange(1, n - 1) =~= written);
            lemma_part(toks, pos, whole, 1, n - 1);
            assert(toks[pos] == whole[0]);
            assert(toks[pos + n - 1] == whole[n - 1]);
            assert(whole[n - 1] == ";"@);
            assert(is_stop(toks[pos + n - 1]));
            law_written_expression_reads_back(*value, table, toks, pos + 1);
            assert(expect(toks, pos + n - 1, ";"@) == Ok::<int, ErrorKind>(pos + n));
            assert(parse_return(toks, pos, table, inside) == Ok::<(Expr, int, Symbols), ErrorKind>(
                (s, pos + n, table),
            ));
        },
        _ => {},
    }
}

/// The first token of an accepted statement can stand first in a
/// statement.
pub proof fn lemma_first_stmt_token(s: Expr, table: Symbols, inside: bool)
    requires
        declares(s, table, inside) is Some,
    ensures
        stmt_tokens(s).len() >= 1,
        can_start(stmt_tokens(s)[0]),
{
    lemma_keywords();
    lemma_marks();
    assert("}"@[0] == '}');
    let t = stmt_tokens(s)[0];
    match s {
        Expr::Let(_, _, _) => {
            assert(t == "let"@);
        },
        Expr::Assign(name, _) => {
            assert(t == name);
            lemma_names(name);
            assert(is_letter(t[0]));
        },
        Expr::Del(_) => {
            assert(t == "del"@);
        },
        Expr::IEE(_, _, _, _) => {
            assert(t == "if"@);
        },
        Expr::Switch(_, _, _) => {
            assert(t == "switch"@);
        },
        Expr::For(_, _, _, _) => {
            assert(t == "for"@);
        },
        Expr::While(_, _) => {
            assert(t == "while"@);
        },
        Expr::FuncDef(_, _, _, _) => {
            assert(t == "func"@);
        },
        Expr::Return(_) => {
            assert(t == "return"@);
        },
        _ => {
            lemma_first_expr_token(s, table);
            assert(stmt_tokens(s) == expr_tokens(s) + seq![";"@]);
            assert(t == expr_tokens(s)[0]);
        },
    }
}

/// What follows the statements of a body stands first in a statement
/// or closes the body, so that no chain goes on there.
pub proof fn lemma_body_follows(
    body: Seq<Expr>,
    from: int,
    table: Symbols,
    inside: bool,
    toks: Seq<Seq<char>>,
    pos: int,
)
    requires
        0 <= from <= body.len(),
        declares_body(body, from, table, inside) is Some,
        holds_at(toks, pos, body_tokens(body, from) + seq!["}"@]),
    ensures
        quiet(toks, pos),
        0 <= pos < toks.len(),
        from < body.len() ==> toks[pos] != "}"@,
        from == body.len() ==> toks[pos] == "}"@,
{
    lemma_keywords();
    lemma_marks();
    assert("}"@[0] == '}');
    let whole = body_tokens(body, from) + seq!["}"@];
    lemma_part(toks, pos, whole, 0, whole.len() as int);
    assert(toks[pos] == whole[0]);
    if from < body.len() {
        lemma_first_stmt_token(body[from], table, inside);
        assert(body_tokens(body, from) == stmt_tokens(body[from]) + body_tokens(body, from + 1));
        assert(whole[0] == stmt_tokens(body[from])[0]);
    } else {
        assert(body_tokens(body, from) =~= Seq::<Seq<char>>::empty());
        assert(whole[0] == "}"@);
    }
}

/// The accepted statements of a body that are written out, with the
/// closing brace after them, read back.
pub proof fn lemma_body_rereads(
    body: Seq<Expr>,
    from: int,
    table: Symbols,
    inside: bool,
    toks: Seq<Seq<char>>,
    pos: int,
    before: Seq<Expr>,
)
    requires
        0 <= from <= body.len(),
        declares_body(body, from, table, inside) is Some,
        holds_at(toks, pos, body_tokens(body, from) + seq!["}"@]),
    ensures
        parse_stmts(toks, pos, table, inside, before) == Ok::<
            (Seq<Expr>, int, Symbols),
            ErrorKind,
        >(
            (
                before + body.subrange(from, body.len() as int),
                pos + body_tokens(body, from).len() + 1,
                declares_body(body, from, table, inside)->0,
            ),
        ),
    decreases body, 0nat, body.len() - from,
{
    let listed = body_tokens(body, from);
    let whole = listed + seq!["}"@];
    let n = whole.len() as int;
    lemma_body_follows(body, from, table, inside, toks, pos);
    if from < body.len() {
        let s = body[from];
        let first = stmt_tokens(s);
        let later = body_tokens(body, from + 1);
        let t1 = declares(s, table, inside)->0;
        assert(listed == first + later);
        lemma_first_stmt_token(s, table, inside);
        assert(whole.subrange(0, first.len() as int) =~= first);
        assert(whole.subrange(first.len() as int, n) =~= later + seq!["}"@]);
        lemma_part(toks, pos, whole, 0, first.len() as int);
        lemma_part(toks, pos, whole, first.len() as int, n);
        lemma_body_follows(body, from + 1, t1, inside, toks, pos + first.len());
        lemma_stmt_rereads(s, table, inside, toks, pos);
        lemma_body_rereads(body, from + 1, t1, inside, toks, pos + first.len(), before.push(s));
        assert(before.push(s) + body.subrange(from + 1, body.len() as int) =~= before
            + body.subrange(from, body.len() as int));
    } else {
        assert(listed =~= Seq::<Seq<char>>::empty());
        assert(before + body.subrange(from, body.len() as int) =~= before);
    }
}

/// An accepted body that is written out between its braces reads back.
pub proof fn lemma_block_rereads(
    body: Seq<Expr>,
    table: Symbols,
    inside: bool,
    toks: Seq<Seq<char>>,
    pos: int,
)
    requires
        declares_body(body, 0, table, inside) is Some,
        holds_at(toks, pos, block_tokens(body)),
    ensures
        parse_block(toks, pos, table, inside) == Ok::<(Seq<Expr>, int, Symbols), ErrorKind>(
            (body, pos + block_tokens(body).len(), declares_body(body, 0, table, inside)->0),
        ),
    decreases body, 1nat, 0nat,
{
    let listed = body_tokens(body, 0);
    let whole = block_tokens(body);
    let n = whole.len() as int;
    assert(whole == seq!["{"@] + listed + seq!["}"@]);
    assert(whole.subrange(1, n) =~= listed + seq!["}"@]);
    lemma_part(toks, pos, whole, 1, n);
    assert(toks[pos] == whole[0]);
    lemma_body_rereads(body, 0, table, inside, toks, pos + 1, Seq::empty());
    assert(Seq::<Expr>::empty() + body.subrange(0, body.len() as int) =~= body);
    assert(expect(toks, pos, "{"@) == Ok::<int, ErrorKind>(pos + 1));
}

/// The tokens of a condition in round brackets with its body.
pub open spec fn arm_tokens(arm: (Expr, Seq<Expr>)) -> Seq<Seq<char>> {
    seq!["("@] + expr_tokens(arm.0) + seq![")"@] + block_tokens(arm.1)
}

/// An accepted condition with its body that is written out reads back.
pub proof fn lemma_arm_rereads(
    arm: (Expr, Seq<Expr>),
    table: Symbols,
    inside: bool,
    toks: Seq<Seq<char>>,
    pos: int,
)
    requires
        well_formed(arm.0, table),
        declares_body(arm.1, 0, table, inside) is Some,
        holds_at(toks, pos, arm_tokens(arm)),
    ensures
        parse_arm(toks, pos, table, inside) == Ok::<((Expr, Seq<Expr>), int, Symbols), ErrorKind>(
            (arm, pos + arm_tokens(arm).len(), declares_body(arm.1, 0, table, inside)->0),
        ),
    decreases arm.1, 2nat, 0nat,
{
    let written = expr_tokens(arm.0);
    let block = block_tokens(arm.1);
    let whole = arm_tokens(arm);
    let n = whole.len() as int;
    let c = written.len() as int;
    lemma_first_token(arm.0, table);
    lemma_marks();
    assert(whole.subrange(1, 1 + c) =~= written);
    assert(whole.subrange(2 + c, n) =~= block);
    lemma_part(toks, pos, whole, 1, 1 + c);
    lemma_part(toks, pos, whole, 2 + c, n);
    assert(toks[pos] == whole[0]);
    assert(toks[pos + 1 + c] == whole[1 + c]);
    assert(whole[1 + c] == ")"@);
    assert(is_stop(toks[pos + 1 + c]));
    law_written_expression_reads_back(arm.0, table, toks, pos + 1);
    assert(expect(toks, pos, "("@) == Ok::<int, ErrorKind>(pos + 1));
    assert(expect(toks, pos + 1 + c, ")"@) == Ok::<int, ErrorKind>(pos + 2 + c));
    assert(parse_condition(toks, pos, table) == Ok::<(Expr, int), ErrorKind>(
        (arm.0, pos + 2 + c),
    ));
    lemma_block_rereads(arm.1, table, inside, toks, pos + 2 + c);
}

/// The accepted `elif` arms that are written out read back, where no
/// `elif` follows them.
pub proof fn lemma_elifs_reread(
    arms: Seq<(Expr, Seq<Expr>)>,
    from: int,
    table: Symbols,
    inside: bool,
    toks: Seq<Seq<char>>,
    pos: int,
    before: Seq<(Expr, Seq<Expr>)>,
)
    requires
        0 <= from <= arms.len(),
        declares_arms(arms, from, table, inside) is Some,
        holds_at(toks, pos, arms_tokens(arms, from, "elif"@, true)),
        !at(toks, pos + arms_tokens(arms, from, "elif"@, true).len(), "elif"@),
    ensures
        parse_elifs(toks, pos, table, inside, before) == Ok::<
            (Seq<(Expr, Seq<Expr>)>, int, Symbols),
            ErrorKind,
        >(
            (
                before + arms.subrange(from, arms.len() as int),
                pos + arms_tokens(arms, from, "elif"@, true).len(),
                declares_arms(arms, from, table, inside)->0,
            ),
        ),
    decreases arms, 1nat, arms.len() - from,
{
    let listed = arms_tokens(arms, from, "elif"@, true);
    let n = listed.len() as int;
    if from < arms.len() {
        let arm = arms[from];
        let one = arm_tokens(arm);
        let a = one.len() as int;
        let later = arms_tokens(arms, from + 1, "elif"@, true);
        let t1 = declares_body(arm.1, 0, table, inside)->0;
        assert(listed =~= seq!["elif"@] + one + later);
        assert(listed.subrange(1, 1 + a) =~= one);
        assert(listed.subrange(1 + a, n) =~= later);
        lemma_part(toks, pos, listed, 1, 1 + a);
        lemma_part(toks, pos, listed, 1 + a, n);
        assert(toks[pos] == listed[0]);
        lemma_arm_rereads(arm, table, inside, toks, pos + 1);
        lemma_elifs_reread(arms, from + 1, t1, inside, toks, pos + 1 + a, before.push(arm));
        assert(before.push(arm) + arms.subrange(from + 1, arms.len() as int) =~= before
            + arms.subrange(from, arms.len() as int));
    } else {
        assert(listed =~= Seq::<Seq<char>>::empty());
        assert(before + arms.subrange(from, arms.len() as int) =~= before);
    }
}

/// The accepted cases of a `switch` that are written out read back,
/// where no `case` follows them.
pub proof fn lemma_cases_reread(
    arms: Seq<(Expr, Seq<Expr>)>,
    from: int,
    table: Symbols,
    inside: bool,
    toks: Seq<Seq<char>>,
    pos: int,
    before: Seq<(Expr, Seq<Expr>)>,
)
    requires
        0 <= from <= arms.len(),
        declares_arms(arms, from, table, inside) is Some,
        holds_at(toks, pos, arms_tokens(arms, from, "case"@, false)),
        !at(toks, pos + arms_tokens(arms, from, "case"@, false).len(), "case"@),
    ensures
        parse_cases(toks, pos, table, inside, before) == Ok::<
            (Seq<(Expr, Seq<Expr>)>, int, Symbols),
            ErrorKind,
        >(
            (
                before + arms.subrange(from, arms.len() as int),
                pos + arms_tokens(arms, from, "case"@, false).len(),
                declares_arms(arms, from, table, inside)->0,
            ),
        ),
    decreases arms, 1nat, arms.len() - from,
{
    let listed = arms_tokens(arms, from, "case"@, false);
    let n = listed.len() as int;
    if from < arms.len() {
        let arm = arms[from];
        let written = expr_tokens(arm.0);
        let block = block_tokens(arm.1);
        let c = written.len() as int;
        let b = block.len() as int;
        let later = arms_tokens(arms, from + 1, "case"@, false);
        let t1 = declares_body(arm.1, 0, table, inside)->0;
        lemma_first_token(arm.0, table);
        lemma_marks();
        assert(listed =~= seq!["case"@] + written + block + later);
        assert(block == seq!["{"@] + body_tokens(arm.1, 0) + seq!["}"@]);
        assert(listed.subrange(1, 1 + c) =~= written);
        assert(listed.subrange(1 + c, 1 + c + b) =~= block);
        assert(listed.subrange(1 + c + b, n) =~= later);
        lemma_part(toks, pos, listed, 1, 1 + c);
        lemma_part(toks, pos, listed, 1 + c, 1 + c + b);
        lemma_part(toks, pos, listed, 1 + c + b, n);
        assert(toks[pos] == listed[0]);
        assert(toks[pos + 1 + c] == listed[1 + c]);
        assert(listed[1 + c] == block[0]);
        assert(is_stop(toks[pos + 1 + c]));
        law_written_expression_reads_back(arm.0, table, toks, pos + 1);
        lemma_block_rereads(arm.1, table, inside, toks, pos + 1 + c);
        lemma_cases_reread(arms, from + 1, t1, inside, toks, pos + 1 + c + b, before.push(arm));
        assert(before.push(arm) + arms.subrange(from + 1, arms.len() as int) =~= before
            + arms.subrange(from, arms.len() as int));
    } else {
        assert(listed =~= Seq::<Seq<char>>::empty());
        assert(before + arms.subrange(from, arms.len() as int) =~= before);
    }
}

/// Which kind of statement a first token opens.
pub proof fn lemma_dispatch(toks: Seq<Seq<char>>, pos: int, table: Symbols, inside: bool)
    requires
        0 <= pos < toks.len(),
    ensures
        toks[pos] == "if"@ ==> parse_stmt(toks, pos, table, inside) == parse_if(
            toks,
            pos,
            table,
            inside,
        ),
        toks[pos] == "while"@ ==> parse_stmt(toks, pos, table, inside) == parse_while(
            toks,
            pos,
            table,
            inside,
        ),
        toks[pos] == "for"@ ==> parse_stmt(toks, pos, table, inside) == parse_for(
            toks,
            pos,
            table,
            inside,
        ),
        toks[pos] == "func"@ ==> parse_stmt(toks, pos, table, inside) == parse_func(
            toks,
            pos,
            table,
        ),
        toks[pos] == "switch"@ ==> parse_stmt(toks, pos, table, inside) == parse_switch(
            toks,
            pos,
            table,
            inside,
        ),
{
    lemma_keywords();
}

/// An accepted expression that is written out as a statement reads
/// back.
proof fn lemma_plain_rereads(s: Expr, table: Symbols, inside: bool, toks: Seq<Seq<char>>, pos: int)
    requires
        is_expression(s),
        declares(s, table, inside) is Some,
        holds_at(toks, pos, stmt_tokens(s)),
    ensures
        parse_stmt(toks, pos, table, inside) == Ok::<(Expr, int, Symbols), ErrorKind>(
            (s, pos + stmt_tokens(s).len(), declares(s, table, inside)->0),
        ),
{
    assert(stmt_tokens(s) == expr_tokens(s) + seq![";"@]);
    assert(well_formed(s, table));
    assert(declares(s, table, inside) == Some(table));
    lemma_expression_statement_rereads(s, table, inside, toks, pos);
}

/// An accepted statement with a body that is written out reads back,
/// where neither `elif` nor `else` follows it.
proof fn lemma_compound_rereads(
    s: Expr,
    table: Symbols,
    inside: bool,
    toks: Seq<Seq<char>>,
    pos: int,
)
    requires
        s is IEE || s is While || s is For || s is FuncDef || s is Switch,
        declares(s, table, inside) is Some,
        holds_at(toks, pos, stmt_tokens(s)),
        quiet(toks, pos + stmt_tokens(s).len()),
    ensures
        parse_stmt(toks, pos, table, inside) == Ok::<(Expr, int, Symbols), ErrorKind>(
            (s, pos + stmt_tokens(s).len(), declares(s, table, inside)->0),
        ),
    decreases s, 0nat, 1nat,
{
    if s is IEE {
        lemma_if_rereads(s, table, inside, toks, pos);
    } else if s is While {
        lemma_while_rereads(s, table, inside, toks, pos);
    } else if s is For {
        lemma_for_rereads(s, table, inside, toks, pos);
    } else if s is FuncDef {
        lemma_func_rereads(s, table, inside, toks, pos);
    } else {
        lemma_switch_rereads(s, table, inside, toks, pos);
    }
    lemma_dispatch(toks, pos, table, inside);
}

/// An accepted statement that is written out reads back, where neither
/// `elif` nor `else` follows it.
pub proof fn lemma_stmt_rereads(
    s: Expr,
    table: Symbols,
    inside: bool,
    toks: Seq<Seq<char>>,
    pos: int,
)
    requires
        declares(s, table, inside) is Some,
        holds_at(toks, pos, stmt_tokens(s)),
        quiet(toks, pos + stmt_tokens(s).len()),
    ensures
        parse_stmt(toks, pos, table, inside) == Ok::<(Expr, int, Symbols), ErrorKind>(
            (s, pos + stmt_tokens(s).len(), declares(s, table, inside)->0),
        ),
    decreases s, 1nat, 0nat,
{
    if s is Let {
        lemma_let_rereads(s, table, inside, toks, pos);
    } else if s is Assign {
        lemma_assign_rereads(s, table, inside, toks, pos);
    } else if s is Del {
        lemma_del_rereads(s, table, inside, toks, pos);
    } else if s is Return {
        lemma_return_rereads(s, table, inside, toks, pos);
    } else if is_expression(s) {
        lemma_plain_rereads(s, table, inside, toks, pos);
    } else {
        lemma_compound_rereads(s, table, inside, toks, pos);
    }
}

/// An accepted `while` that is written out reads back.
pub proof fn lemma_while_rereads(
    s: Expr,
    table: Symbols,
    inside: bool,
    toks: Seq<Seq<char>>,
    pos: int,
)
    requires
        s is While,
        declares(s, table, inside) is Some,
        holds_at(toks, pos, stmt_tokens(s)),
    ensures
        0 <= pos < toks.len(),
        toks[pos] == "while"@,
        parse_while(toks, pos, table, inside) == Ok::<(Expr, int, Symbols), ErrorKind>(
            (s, pos + stmt_tokens(s).len(), declares(s, table, inside)->0),
        ),
    decreases s, 0nat, 0nat,
{
    match s {
        Expr::While(cond, body) => {
            let arm = (*cond, body);
            let one = arm_tokens(arm);
            let whole = stmt_tokens(s);
            let n = whole.len() as int;
            lemma_keywords();
            assert(whole =~= seq!["while"@] + one);
            assert(whole.subrange(1, n) =~= one);
            lemma_part(toks, pos, whole, 1, n);
            assert(toks[pos] == whole[0]);
            lemma_arm_rereads(arm, table, inside, toks, pos + 1);
            assert(parse_while(toks, pos, table, inside) == Ok::<
                (Expr, int, Symbols),
                ErrorKind,
            >((s, pos + n, declares(s, table, inside)->0)));
        },
        _ => {},
    }
}

/// What follows the arms of a chain: the `else` body, or nothing.
pub open spec fn else_tokens(otherwise: Option<Seq<Expr>>) -> Seq<Seq<char>> {
    match otherwise {
        Some(b) => seq!["else"@] + block_tokens(b),
        None => Seq::empty(),
    }
}

/// Where the parts of a written `if` stand.
proof fn lemma_if_layout(s: Expr, toks: Seq<Seq<char>>, pos: int)
    requires
        s is IEE,
        holds_at(toks, pos, stmt_tokens(s)),
    ensures
        ({
            let one = arm_tokens((*s->IEE_0, s->IEE_1));
            let chain = arms_tokens(s->IEE_2, 0, "elif"@, true);
            let last = else_tokens(s->IEE_3);
            let q = pos + 1 + one.len() + chain.len();
            &&& stmt_tokens(s).len() == 1 + one.len() + chain.len() + last.len()
            &&& toks[pos] == "if"@
            &&& 0 <= pos < toks.len()
            &&& holds_at(toks, pos + 1, one)
            &&& holds_at(toks, pos + 1 + one.len(), chain)
            &&& holds_at(toks, q, last)
            &&& s->IEE_3 matches Some(b) ==> toks[q] == "else"@ && holds_at(
                toks,
                q + 1,
                block_tokens(b),
            ) && last.len() == 1 + block_tokens(b).len()
            &&& s->IEE_3 is None ==> last.len() == 0
        }),
{
    match s {
        Expr::IEE(cond, body, elifs, otherwise) => {
            let one = arm_tokens((*cond, body));
            let chain = arms_tokens(elifs, 0, "elif"@, true);
            let last = else_tokens(otherwise);
            let whole = stmt_tokens(s);
            let n = whole.len() as int;
            let a = one.len() as int;
            let c = chain.len() as int;
            assert(whole =~= seq!["if"@] + one + chain + last);
            assert(whole.subrange(1, 1 + a) =~= one);
            assert(whole.subrange(1 + a, 1 + a + c) =~= chain);
            assert(whole.subrange(1 + a + c, n) =~= last);
            lemma_part(toks, pos, whole, 1, 1 + a);
            lemma_part(toks, pos, whole, 1 + a, 1 + a + c);
            lemma_part(toks, pos, whole, 1 + a + c, n);
            assert(toks[pos] == whole[0]);
            match otherwise {
                Some(b) => {
                    assert(last[0] == "else"@);
                    assert(toks[pos + 1 + a + c] == whole[1 + a + c]);
                    assert(last.subrange(1, last.len() as int) =~= block_tokens(b));
                    lemma_part(toks, pos + 1 + a + c, last, 1, last.len() as int);
                },
                None => {},
            }
        },
        _ => {},
    }
}

/// An accepted `if` that is written out reads back, where neither
/// `elif` nor `else` follows it.
pub proof fn lemma_if_rereads(
    s: Expr,
    table: Symbols,
    inside: bool,
    toks: Seq<Seq<char>>,
    pos: int,
)
    requires
        s is IEE,
        declares(s, table, inside) is Some,
        holds_at(toks, pos, stmt_tokens(s)),
        quiet(toks, pos + stmt_tokens(s).len()),
    ensures
        0 <= pos < toks.len(),
        toks[pos] == "if"@,
        parse_if(toks, pos, table, inside) == Ok::<(Expr, int, Symbols), ErrorKind>(
            (s, pos + stmt_tokens(s).len(), declares(s, table, inside)->0),
        ),
    decreases s, 0nat, 0nat,
{
    lemma_if_layout(s, toks, pos);
    lemma_keywords();
    match s {
        Expr::IEE(cond, body, elifs, otherwise) => {
            let arm = (*cond, body);
            let a = arm_tokens(arm).len() as int;
            let c = arms_tokens(elifs, 0, "elif"@, true).len() as int;
            let t1 = declares_body(body, 0, table, inside)->0;
            let t2 = declares_arms(elifs, 0, t1, inside)->0;
            let q = pos + 1 + a + c;
            lemma_arm_rereads(arm, table, inside, toks, pos + 1);
            assert(!at(toks, q, "elif"@));
            lemma_elifs_reread(elifs, 0, t1, inside, toks, pos + 1 + a, Seq::empty());
            assert(Seq::<(Expr, Seq<Expr>)>::empty() + elifs.subrange(0, elifs.len() as int)
                =~= elifs);
            assert(parse_arm(toks, pos + 1, table, inside) == Ok::<
                ((Expr, Seq<Expr>), int, Symbols),
                ErrorKind,
            >((arm, pos + 1 + a, t1)));
            assert(parse_elifs(toks, pos + 1 + a, t1, inside, Seq::empty()) == Ok::<
                (Seq<(Expr, Seq<Expr>)>, int, Symbols),
                ErrorKind,
            >((elifs, q, t2)));
            match otherwise {
                Some(b) => {
                    lemma_block_rereads(b, t2, inside, toks, q + 1);
                    assert(at(toks, q, "else"@));
                },
                None => {
                    assert(!at(toks, q, "else"@));
                },
            }
            assert(parse_if(toks, pos, table, inside) == Ok::<(Expr, int, Symbols), ErrorKind>(
                (s, pos + stmt_tokens(s).len(), declares(s, table, inside)->0),
            ));
        },
        _ => {},
    }
}

/// An accepted `for` that is written out reads back.
pub proof fn lemma_for_rereads(
    s: Expr,
    table: Symbols,
    inside: bool,
    toks: Seq<Seq<char>>,
    pos: int,
)
    requires
        s is For,
        declares(s, table, inside) is Some,
        holds_at(toks, pos, stmt_tokens(s)),
    ensures
        0 <= pos < toks.len(),
        toks[pos] == "for"@,
        parse_for(toks, pos, table, inside) == Ok::<(Expr, int, Symbols), ErrorKind>(
            (s, pos + stmt_tokens(s).len(), declares(s, table, inside)->0),
        ),
    decreases s, 0nat, 0nat,
{
    match s {
        Expr::For(var, cond, step, body) => {
            let written = expr_tokens(*cond);
            let stepped = step_tokens(*step);
            let block = block_tokens(body);
            let whole = stmt_tokens(s);
            let n = whole.len() as int;
            let c = written.len() as int;
            let d = stepped.len() as int;
            let t1 = assigns(*step, table)->0;
            lemma_keywords();
            lemma_marks();
            lemma_first_token(*cond, table);
            assert(whole =~= seq!["for"@, "("@, var, ";"@] + written + seq![";"@] + stepped
                + seq![")"@] + block);
            assert(whole.subrange(4, 4 + c) =~= written);
            assert(whole.subrange(5 + c, 5 + c + d) =~= stepped);
            assert(whole.subrange(6 + c + d, n) =~= block);
            lemma_part(toks, pos, whole, 4, 4 + c);
            lemma_part(toks, pos, whole, 5 + c, 5 + c + d);
            lemma_part(toks, pos, whole, 6 + c + d, n);
            assert(toks[pos] == whole[0] && toks[pos + 1] == whole[1] && toks[pos + 2] == whole[2]
                && toks[pos + 3] == whole[3]);
            assert(toks[pos + 4 + c] == whole[4 + c]);
            assert(whole[4 + c] == ";"@);
            assert(toks[pos + 5 + c + d] == whole[5 + c + d]);
            assert(whole[5 + c + d] == ")"@);
            assert(is_stop(toks[pos + 4 + c]));
            assert(is_stop(toks[pos + 5 + c + d]));
            law_written_expression_reads_back(*cond, table, toks, pos + 4);
            lemma_step_rereads(*step, table, toks, pos + 5 + c);
            lemma_block_rereads(body, t1, inside, toks, pos + 6 + c + d);
            assert(expect_name(toks, pos + 2) == Ok::<Seq<char>, ErrorKind>(var));
            assert(expect(toks, pos + 4 + c, ";"@) == Ok::<int, ErrorKind>(pos + 5 + c));
            assert(expect(toks, pos + 5 + c + d, ")"@) == Ok::<int, ErrorKind>(pos + 6 + c + d));
            assert(parse_for(toks, pos, table, inside) == Ok::<(Expr, int, Symbols), ErrorKind>(
                (s, pos + n, declares(s, table, inside)->0),
            ));
        },
        _ => {},
    }
}

/// What follows the cases of a `switch`: the default body, or
/// nothing.
pub open spec fn default_tokens(default: Option<Seq<Expr>>) -> Seq<Seq<char>> {
    match default {
        Some(b) => seq!["default"@] + block_tokens(b),
        None => Seq::empty(),
    }
}

/// Where the parts of a written `switch` stand.
proof fn lemma_switch_layout(s: Expr, toks: Seq<Seq<char>>, pos: int)
    requires
        s is Switch,
        holds_at(toks, pos, stmt_tokens(s)),
    ensures
        ({
            let written = expr_tokens(*s->Switch_0);
            let listed = arms_tokens(s->Switch_1, 0, "case"@, false);
            let last = default_tokens(s->Switch_2);
            let c = written.len();
            let q = pos + 4 + c + listed.len();
            &&& stmt_tokens(s).len() == 5 + c + listed.len() + last.len()
            &&& 0 <= pos
            &&& pos + stmt_tokens(s).len() <= toks.len()
            &&& toks[pos] == "switch"@
            &&& toks[pos + 1] == "("@
            &&& toks[pos + 2 + c] == ")"@
            &&& toks[pos + 3 + c] == "{"@
            &&& toks[q + last.len()] == "}"@
            &&& holds_at(toks, pos + 2, written)
            &&& holds_at(toks, pos + 4 + c, listed)
            &&& s->Switch_2 matches Some(b) ==> toks[q] == "default"@ && holds_at(
                toks,
                q + 1,
                block_tokens(b),
            ) && last.len() == 1 + block_tokens(b).len()
            &&& s->Switch_2 is None ==> last.len() == 0
        }),
{
    match s {
        Expr::Switch(subject, cases, default) => {
            let written = expr_tokens(*subject);
            let listed = arms_tokens(cases, 0, "case"@, false);
            let last = default_tokens(default);
            let whole = stmt_tokens(s);
            let n = whole.len() as int;
            let c = written.len() as int;
            let l = listed.len() as int;
            assert(whole =~= seq!["switch"@, "("@] + written + seq![")"@, "{"@] + listed + last
                + seq!["}"@]);
            assert(whole.subrange(2, 2 + c) =~= written);
            assert(whole.subrange(4 + c, 4 + c + l) =~= listed);
            assert(whole.subrange(4 + c + l, n - 1) =~= last);
            lemma_part(toks, pos, whole, 2, 2 + c);
            lemma_part(toks, pos, whole, 4 + c, 4 + c + l);
            lemma_part(toks, pos, whole, 4 + c + l, n - 1);
            assert(toks[pos] == whole[0] && toks[pos + 1] == whole[1]);
            assert(toks[pos + 2 + c] == whole[2 + c] && toks[pos + 3 + c] == whole[3 + c]);
            assert(toks[pos + n - 1] == whole[n - 1]);
            match default {
                Some(b) => {
                    assert(last[0] == "default"@);
                    assert(toks[pos + 4 + c + l] == whole[4 + c + l]);
                    assert(last.subrange(1, last.len() as int) =~= block_tokens(b));
                    lemma_part(toks, pos + 4 + c + l, last, 1, last.len() as int);
                },
                None => {},
            }
        },
        _ => {},
    }
}

/// An accepted `switch` that is written out reads back.
pub proof fn lemma_switch_rereads(
    s: Expr,
    table: Symbols,
    inside: bool,
    toks: Seq<Seq<char>>,
    pos: int,
)
    requires
        s is Switch,
        declares(s, table, inside) is Some,
        holds_at(toks, pos, stmt_tokens(s)),
    ensures
        0 <= pos < toks.len(),
        toks[pos] == "switch"@,
        parse_switch(toks, pos, table, inside) == Ok::<(Expr, int, Symbols), ErrorKind>(
            (s, pos + stmt_tokens(s).len(), declares(s, table, inside)->0),
        ),
    decreases s, 0nat, 0nat,
{
    lemma_switch_layout(s, toks, pos);
    lemma_keywords();
    lemma_marks();
    assert("}"@[0] == '}' && "{"@[0] == '{');
    match s {
        Expr::Switch(subject, cases, default) => {
            let c = expr_tokens(*subject).len() as int;
            let l = arms_tokens(cases, 0, "case"@, false).len() as int;
            let n = stmt_tokens(s).len() as int;
            let t1 = declares_arms(cases, 0, table, inside)->0;
            let q = pos + 4 + c + l;
            lemma_first_token(*subject, table);
            assert(is_stop(toks[pos + 2 + c]));
            law_written_expression_reads_back(*subject, table, toks, pos + 2);
            assert(parse_condition(toks, pos + 1, table) == Ok::<(Expr, int), ErrorKind>(
                (*subject, pos + 3 + c),
            ));
            assert(expect(toks, pos + 3 + c, "{"@) == Ok::<int, ErrorKind>(pos + 4 + c));
            assert(!at(toks, q, "case"@));
            lemma_cases_reread(cases, 0, table, inside, toks, pos + 4 + c, Seq::empty());
            assert(Seq::<(Expr, Seq<Expr>)>::empty() + cases.subrange(0, cases.len() as int)
                =~= cases);
            assert(parse_cases(toks, pos + 4 + c, table, inside, Seq::empty()) == Ok::<
                (Seq<(Expr, Seq<Expr>)>, int, Symbols),
                ErrorKind,
            >((cases, q, t1)));
            match default {
                Some(b) => {
                    lemma_block_rereads(b, t1, inside, toks, q + 1);
                    assert(at(toks, q, "default"@));
                    assert(expect(toks, pos + n - 1, "}"@) == Ok::<int, ErrorKind>(pos + n));
                },
                None => {
                    assert(!at(toks, q, "default"@));
                    assert(expect(toks, q, "}"@) == Ok::<int, ErrorKind>(pos + n));
                },
            }
            assert(parse_switch(toks, pos, table, inside) == Ok::<
                (Expr, int, Symbols),
                ErrorKind,
            >((s, pos + n, declares(s, table, inside)->0)));
        },
        _ => {},
    }
}

/// The parameters that are written out, with the closing bracket after
/// them, read back with the names of their types.
pub proof fn lemma_params_reread(
    params: Seq<(Seq<char>, Type)>,
    from: int,
    toks: Seq<Seq<char>>,
    pos: int,
    before: Seq<(Seq<char>, Seq<char>)>,
)
    requires
        0 <= from < params.len(),
        forall|i: int| 0 <= i < params.len() ==> is_name(#[trigger] params[i].0),
        holds_at(toks, pos, params_tokens(params, from) + seq![")"@]),
    ensures
        parse_params(toks, pos, before) == Ok::<(Seq<(Seq<char>, Seq<char>)>, int), ErrorKind>(
            (
                before + named_params(params).subrange(from, params.len() as int),
                pos + params_tokens(params, from).len() + 1,
            ),
        ),
    decreases params.len() - from,
{
    let listed = params_tokens(params, from);
    let whole = listed + seq![")"@];
    let n = whole.len() as int;
    let name = params[from].0;
    let typ = name_of_type(params[from].1);
    let one = seq![name, ":"@, typ];
    lemma_marks();
    lemma_type_names(params[from].1);
    assert(is_name(name));
    assert(named_params(params)[from] == (name, typ));
    lemma_part(toks, pos, whole, 0, n);
    assert(","@[0] == ',' && ")"@[0] == ')');
    if from + 1 < params.len() {
        let later = params_tokens(params, from + 1);
        assert(listed == one + seq![","@] + later);
        assert(toks[pos] == whole[0] && toks[pos + 1] == whole[1] && toks[pos + 2] == whole[2]
            && toks[pos + 3] == whole[3]);
        assert(whole.subrange(4, n) =~= later + seq![")"@]);
        lemma_part(toks, pos, whole, 4, n);
        lemma_params_reread(params, from + 1, toks, pos + 4, before.push((name, typ)));
        assert(before.push((name, typ)) + named_params(params).subrange(
            from + 1,
            params.len() as int,
        ) =~= before + named_params(params).subrange(from, params.len() as int));
    } else {
        assert(listed == one);
        assert(toks[pos] == whole[0] && toks[pos + 1] == whole[1] && toks[pos + 2] == whole[2]
            && toks[pos + 3] == whole[3]);
        assert(before.push((name, typ)) =~= before + named_params(params).subrange(
            from,
            params.len() as int,
        ));
        assert(expect_name(toks, pos) == Ok::<Seq<char>, ErrorKind>(name));
        assert(expect_name(toks, pos + 2) == Ok::<Seq<char>, ErrorKind>(typ));
    }
}

/// Where the parts of a written declaration of a function stand.
proof fn lemma_func_layout(s: Expr, toks: Seq<Seq<char>>, pos: int)
    requires
        s is FuncDef,
        holds_at(toks, pos, stmt_tokens(s)),
    ensures
        ({
            let listed = params_tokens(s->FuncDef_1, 0);
            let block = block_tokens(s->FuncDef_3);
            let l = listed.len();
            &&& stmt_tokens(s).len() == 6 + l + block.len()
            &&& 0 <= pos
            &&& pos + stmt_tokens(s).len() <= toks.len()
            &&& toks[pos] == "func"@
            &&& toks[pos + 1] == s->FuncDef_0
            &&& toks[pos + 2] == "("@
            &&& toks[pos + 3 + l] == ")"@
            &&& toks[pos + 4 + l] == ":"@
            &&& toks[pos + 5 + l] == name_of_type(s->FuncDef_2)
            &&& holds_at(toks, pos + 3, listed + seq![")"@])
            &&& holds_at(toks, pos + 6 + l, block)
            &&& l > 0 ==> toks[pos + 3] == listed[0]
        }),
{
    match s {
        Expr::FuncDef(name, params, ret, body) => {
            let listed = params_tokens(params, 0);
            let block = block_tokens(body);
            let whole = stmt_tokens(s);
            let n = whole.len() as int;
            let l = listed.len() as int;
            let ret_name = name_of_type(ret);
            assert(whole =~= seq!["func"@, name, "("@] + listed + seq![")"@, ":"@, ret_name]
                + block);
            assert(whole.subrange(3, 4 + l) =~= listed + seq![")"@]);
            assert(whole.subrange(6 + l, n) =~= block);
            lemma_part(toks, pos, whole, 3, 4 + l);
            lemma_part(toks, pos, whole, 6 + l, n);
            assert(toks[pos] == whole[0] && toks[pos + 1] == whole[1] && toks[pos + 2]
                == whole[2]);
            assert(toks[pos + 3] == whole[3]);
            assert(toks[pos + 3 + l] == whole[3 + l] && toks[pos + 4 + l] == whole[4 + l]
                && toks[pos + 5 + l] == whole[5 + l]);
        },
        _ => {},
    }
}

/// The names of the types of parameters that come from their tags are
/// kept as they are, and they name the tags.
proof fn lemma_named_params(params: Seq<(Seq<char>, Type)>)
    ensures
        canonical_params(named_params(params)) == named_params(params),
        typed_params(named_params(params)) == params,
{
    let kept = named_params(params);
    assert forall|i: int| 0 <= i < kept.len() implies canonical_params(kept)[i] == kept[i]
        && typed_params(kept)[i] == params[i] by {
        lemma_type_names(params[i].1);
    }
    assert(canonical_params(kept) =~= kept);
    assert(typed_params(kept) =~= params);
}

/// The parameters of a written declaration of a function read back.
proof fn lemma_func_params_reread(s: Expr, toks: Seq<Seq<char>>, pos: int)
    requires
        s is FuncDef,
        forall|i: int| 0 <= i < s->FuncDef_1.len() ==> is_name(#[trigger] s->FuncDef_1[i].0),
        holds_at(toks, pos, stmt_tokens(s)),
    ensures
        ({
            let params = s->FuncDef_1;
            let l = params_tokens(params, 0).len();
            let read = if at(toks, pos + 3, ")"@) {
                Ok::<(Seq<(Seq<char>, Seq<char>)>, int), ErrorKind>((Seq::empty(), pos + 4))
            } else {
                parse_params(toks, pos + 3, Seq::empty())
            };
            read == Ok::<(Seq<(Seq<char>, Seq<char>)>, int), ErrorKind>(
                (named_params(params), pos + 4 + l),
            )
        }),
{
    lemma_func_layout(s, toks, pos);
    lemma_marks();
    assert(")"@[0] == ')');
    match s {
        Expr::FuncDef(name, params, ret, body) => {
            let listed = params_tokens(params, 0);
            let kept = named_params(params);
            if params.len() == 0 {
                assert(listed =~= Seq::<Seq<char>>::empty());
                assert(kept =~= Seq::<(Seq<char>, Seq<char>)>::empty());
            } else {
                assert(listed[0] == params[0].0);
                assert(is_name(params[0].0));
                lemma_names(params[0].0);
                lemma_params_reread(params, 0, toks, pos + 3, Seq::empty());
                assert(Seq::<(Seq<char>, Seq<char>)>::empty() + kept.subrange(
                    0,
                    params.len() as int,
                ) =~= kept);
            }
        },
        _ => {},
    }
}

/// An accepted declaration of a function that is written out reads
/// back.
pub proof fn lemma_func_rereads(
    s: Expr,
    table: Symbols,
    inside: bool,
    toks: Seq<Seq<char>>,
    pos: int,
)
    requires
        s is FuncDef,
        declares(s, table, inside) is Some,
        holds_at(toks, pos, stmt_tokens(s)),
    ensures
        0 <= pos < toks.len(),
        toks[pos] == "func"@,
        parse_func(toks, pos, table) == Ok::<(Expr, int, Symbols), ErrorKind>(
            (s, pos + stmt_tokens(s).len(), declares(s, table, inside)->0),
        ),
    decreases s, 0nat, 0nat,
{
    lemma_func_layout(s, toks, pos);
    lemma_func_params_reread(s, toks, pos);
    match s {
        Expr::FuncDef(name, params, ret, body) => {
            let l = params_tokens(params, 0).len() as int;
            let n = stmt_tokens(s).len() as int;
            let ret_name = name_of_type(ret);
            let kept = named_params(params);
            let inner = Symbols {
                vars: declare_params(table.vars, kept, 0),
                funcs: bind(
                    table.funcs,
                    name,
                    FunctionEntry {
                        name,
                        params: kept,
                        body: Seq::empty(),
                        return_type: ret_name,
                    },
                ),
            };
            lemma_type_names(ret);
            lemma_named_params(params);
            assert(canonical(ret_name) == ret_name);
            assert(expect_name(toks, pos + 1) == Ok::<Seq<char>, ErrorKind>(name));
            assert(expect(toks, pos + 2, "("@) == Ok::<int, ErrorKind>(pos + 3));
            assert(expect(toks, pos + 4 + l, ":"@) == Ok::<int, ErrorKind>(pos + 5 + l));
            assert(expect_name(toks, pos + 5 + l) == Ok::<Seq<char>, ErrorKind>(ret_name));
            lemma_block_rereads(body, inner, true, toks, pos + 6 + l);
            assert(parse_block(toks, pos + 6 + l, inner, true) == Ok::<
                (Seq<Expr>, int, Symbols),
                ErrorKind,
            >((body, pos + n, declares_body(body, 0, inner, true)->0)));
        },
        _ => {},
    }
}

/// What stands first in the rest of a written program goes on no
/// chain.
proof fn lemma_program_follows(
    body: Seq<Expr>,
    from: int,
    table: Symbols,
    toks: Seq<Seq<char>>,
    pos: int,
)
    requires
        0 <= from <= body.len(),
        declares_body(body, from, table, false) is Some,
        holds_at(toks, pos, body_tokens(body, from)),
        pos + body_tokens(body, from).len() == toks.len(),
    ensures
        quiet(toks, pos),
        from < body.len() ==> pos < toks.len(),
        from == body.len() ==> pos == toks.len(),
{
    let listed = body_tokens(body, from);
    if from < body.len() {
        lemma_first_stmt_token(body[from], table, false);
        assert(listed == stmt_tokens(body[from]) + body_tokens(body, from + 1));
        lemma_part(toks, pos, listed, 0, listed.len() as int);
        assert(toks[pos] == listed[0]);
        assert(listed[0] == stmt_tokens(body[from])[0]);
    } else {
        assert(listed =~= Seq::<Seq<char>>::empty());
    }
}

/// The accepted statements of a program that are written out read
/// back.
pub proof fn lemma_program_rereads(
    body: Seq<Expr>,
    from: int,
    table: Symbols,
    toks: Seq<Seq<char>>,
    pos: int,
    before: Seq<Expr>,
)
    requires
        0 <= from <= body.len(),
        declares_body(body, from, table, false) is Some,
        holds_at(toks, pos, body_tokens(body, from)),
        pos + body_tokens(body, from).len() == toks.len(),
    ensures
        parse_program(toks, pos, table, before) == Ok::<(Seq<Expr>, Symbols), ErrorKind>(
            (
                before + body.subrange(from, body.len() as int),
                declares_body(body, from, table, false)->0,
            ),
        ),
    decreases body.len() - from,
{
    let listed = body_tokens(body, from);
    let n = listed.len() as int;
    lemma_program_follows(body, from, table, toks, pos);
    if from < body.len() {
        let s = body[from];
        let first = stmt_tokens(s);
        let later = body_tokens(body, from + 1);
        let t1 = declares(s, table, false)->0;
        let p = pos + first.len();
        assert(listed == first + later);
        lemma_first_stmt_token(s, table, false);
        assert(listed.subrange(0, first.len() as int) =~= first);
        assert(listed.subrange(first.len() as int, n) =~= later);
        lemma_part(toks, pos, listed, 0, first.len() as int);
        lemma_part(toks, pos, listed, first.len() as int, n);
        lemma_program_follows(body, from + 1, t1, toks, p);
        lemma_stmt_rereads(s, table, false, toks, pos);
        lemma_program_rereads(body, from + 1, t1, toks, p, before.push(s));
        assert(before.push(s) + body.subrange(from + 1, body.len() as int) =~= before
            + body.subrange(from, body.len() as int));
    } else {
        assert(before + body.subrange(from, body.len() as int) =~= before);
    }
}

/// A program that has been parsed can be written out and parsed again,
/// and is then the same program: the tokens of its statements, one
/// after another, read back as the same tree and declare the same
/// names.
pub proof fn law_program_round_trip(toks: Seq<Seq<char>>, table: Symbols)
    requires
        parse_tokens(toks, table) is Ok,
    ensures
        ({
            let tree = parse_tokens(toks, table)->Ok_0.0;
            parse_tokens(body_tokens(tree, 0), table) == parse_tokens(toks, table)
        }),
{
    let tree = parse_tokens(toks, table)->Ok_0.0;
    let declared = parse_tokens(toks, table)->Ok_0.1;
    crate::parser::accepted::lemma_parsed_program(toks, 0, table, Seq::empty());
    assert(tree.len() >= 1);
    assert(declares_body(tree, 0, table, false) == Some(declared));
    let written = body_tokens(tree, 0);
    lemma_first_stmt_token(tree[0], table, false);
    assert(written == stmt_tokens(tree[0]) + body_tokens(tree, 1));
    assert(written.len() >= 1);
    assert(written.subrange(0, written.len() as int) =~= written);
    lemma_program_rereads(tree, 0, table, written, 0, Seq::empty());
    assert(Seq::<Expr>::empty() + tree.subrange(0, tree.len() as int) =~= tree);
}

} // verus!
