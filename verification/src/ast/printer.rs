//! The canonical form of a tree: the tokens that write it, and the text
//! that they make.

use vstd::prelude::*;
use crate::ast::{arms_view, nodes_view, params_view, ASTNode, BinaryOp, Expr, UnaryOp};
use crate::number::{number_text, trunc_rem, Number, SCALE};
use crate::text::{texts_view};
use crate::types::{name_of_type, Type};

verus! {

/// How an operator with two operands is written.
pub open spec fn binary_sign(op: BinaryOp) -> Seq<char> {
    match op {
        BinaryOp::Add => "+"@,
        BinaryOp::Sub => "-"@,
        BinaryOp::Mul => "*"@,
        BinaryOp::Div => "/"@,
        BinaryOp::Mod => "%"@,
        BinaryOp::Pow => "^"@,
        BinaryOp::Eq => "=="@,
        BinaryOp::Ne => "!="@,
        BinaryOp::Lt => "<"@,
        BinaryOp::Gt => ">"@,
        BinaryOp::Lte => "<="@,
        BinaryOp::Gte => ">="@,
    }
}

/// How an operator with one operand is written.
pub open spec fn unary_sign(op: UnaryOp) -> Seq<char> {
    match op {
        UnaryOp::Neg => "-"@,
        UnaryOp::Not => "!"@,
    }
}

/// How a `float` literal is written: always with a fraction.
pub open spec fn float_text(units: int) -> Seq<char> {
    if trunc_rem(units, SCALE as int) == 0 {
        number_text(units) + ".0"@
    } else {
        number_text(units)
    }
}

/// The tokens of the arguments of a call from `from` on, with commas
/// between them.
pub open spec fn args_tokens(args: Seq<Expr>, from: int) -> Seq<Seq<char>>
    decreases args, args.len() - from,
{
    if 0 <= from < args.len() {
        if from + 1 < args.len() {
            expr_tokens(args[from]) + seq![","@] + args_tokens(args, from + 1)
        } else {
            expr_tokens(args[from])
        }
    } else {
        Seq::empty()
    }
}

/// The tokens of an expression. An operator with two operands stands in
/// round brackets with them, so that the tokens read back as the same
/// tree whatever stands around them. A statement is no expression and
/// has no tokens here.
pub open spec fn expr_tokens(e: Expr) -> Seq<Seq<char>>
    decreases e, 0nat,
{
    match e {
        Expr::Int(i) => seq![number_text(i * SCALE)],
        Expr::Float(u) => seq![float_text(u)],
        Expr::Str(s) => seq![seq!['"'] + s + seq!['"']],
        Expr::Boolean(b) => if b {
            seq!["true"@]
        } else {
            seq!["false"@]
        },
        Expr::VarRef(name) => seq![name],
        Expr::Binary(op, lhs, rhs) => seq!["("@] + expr_tokens(*lhs) + seq![binary_sign(op)]
            + expr_tokens(*rhs) + seq![")"@],
        Expr::Unary(op, operand) => seq![unary_sign(op)] + expr_tokens(*operand),
        Expr::FuncCall(name, args) => seq![name, "("@] + args_tokens(args, 0) + seq![")"@],
        _ => Seq::empty(),
    }
}

/// The tokens of the parameters of a function from `from` on.
pub open spec fn params_tokens(params: Seq<(Seq<char>, Type)>, from: int) -> Seq<Seq<char>>
    decreases params.len() - from,
{
    if 0 <= from < params.len() {
        let one = seq![params[from].0, ":"@, name_of_type(params[from].1)];
        if from + 1 < params.len() {
            one + seq![","@] + params_tokens(params, from + 1)
        } else {
            one
        }
    } else {
        Seq::empty()
    }
}

/// The tokens of the statements of a body from `from` on.
pub open spec fn body_tokens(body: Seq<Expr>, from: int) -> Seq<Seq<char>>
    decreases body, body.len() - from,
{
    if 0 <= from < body.len() {
        stmt_tokens(body[from]) + body_tokens(body, from + 1)
    } else {
        Seq::empty()
    }
}

/// The tokens of a body between its braces.
pub open spec fn block_tokens(body: Seq<Expr>) -> Seq<Seq<char>>
    decreases body, body.len() + 1,
{
    seq!["{"@] + body_tokens(body, 0) + seq!["}"@]
}

/// The tokens of the arms from `from` on, each after the word `word`;
/// the condition stands in round brackets where `bracketed`.
pub open spec fn arms_tokens(
    arms: Seq<(Expr, Seq<Expr>)>,
    from: int,
    word: Seq<char>,
    bracketed: bool,
) -> Seq<Seq<char>>
    decreases arms, arms.len() - from,
{
    if 0 <= from < arms.len() {
        let cond = if bracketed {
            seq!["("@] + expr_tokens(arms[from].0) + seq![")"@]
        } else {
            expr_tokens(arms[from].0)
        };
        seq![word] + cond + block_tokens(arms[from].1) + arms_tokens(
            arms,
            from + 1,
            word,
            bracketed,
        )
    } else {
        Seq::empty()
    }
}

/// The tokens of an assignment without its `;`; those of any other node
/// as an expression.
pub open spec fn step_tokens(e: Expr) -> Seq<Seq<char>>
    decreases e, 1nat,
{
    match e {
        Expr::Assign(name, value) => seq![name, "="@] + expr_tokens(*value),
        _ => expr_tokens(e),
    }
}

/// The tokens of a statement. An expression is written with a `;`
/// after it.
pub open spec fn stmt_tokens(e: Expr) -> Seq<Seq<char>>
    decreases e, 2nat,
{
    match e {
        Expr::Let(name, typ, init) => seq!["let"@, name, ":"@, name_of_type(typ), "="@]
            + expr_tokens(*init) + seq![";"@],
        Expr::Assign(name, value) => seq![name, "="@] + expr_tokens(*value) + seq![";"@],
        Expr::Del(name) => seq!["del"@, name, ";"@],
        Expr::IEE(cond, body, elifs, otherwise) => seq!["if"@, "("@] + expr_tokens(*cond)
            + seq![")"@] + block_tokens(body) + arms_tokens(elifs, 0, "elif"@, true)
            + match otherwise {
            Some(b) => seq!["else"@] + block_tokens(b),
            None => Seq::empty(),
        },
        Expr::Switch(subject, cases, default) => seq!["switch"@, "("@] + expr_tokens(*subject)
            + seq![")"@, "{"@] + arms_tokens(cases, 0, "case"@, false) + match default {
            Some(b) => seq!["default"@] + block_tokens(b),
            None => Seq::empty(),
        } + seq!["}"@],
        Expr::For(var, cond, step, body) => seq!["for"@, "("@, var, ";"@] + expr_tokens(*cond)
            + seq![";"@] + step_tokens(*step) + seq![")"@] + block_tokens(body),
        Expr::While(cond, body) => seq!["while"@, "("@] + expr_tokens(*cond) + seq![")"@]
            + block_tokens(body),
        Expr::FuncDef(name, params, ret, body) => seq!["func"@, name, "("@] + params_tokens(
            params,
            0,
        ) + seq![")"@, ":"@, name_of_type(ret)] + block_tokens(body),
        Expr::Return(value) => seq!["return"@] + expr_tokens(*value) + seq![";"@],
        Expr::Int(_) => expr_tokens(e) + seq![";"@],
        Expr::Float(_) => expr_tokens(e) + seq![";"@],
        Expr::Str(_) => expr_tokens(e) + seq![";"@],
        Expr::Boolean(_) => expr_tokens(e) + seq![";"@],
        Expr::VarRef(_) => expr_tokens(e) + seq![";"@],
        Expr::Binary(_, _, _) => expr_tokens(e) + seq![";"@],
        Expr::Unary(_, _) => expr_tokens(e) + seq![";"@],
        Expr::FuncCall(_, _) => expr_tokens(e) + seq![";"@],
    }
}

/// The tokens with one space between each two.
pub open spec fn spaced_tokens(tokens: Seq<Seq<char>>) -> Seq<char>
    decreases tokens.len(),
{
    if tokens.len() == 0 {
        Seq::empty()
    } else if tokens.len() == 1 {
        tokens[0]
    } else {
        spaced_tokens(tokens.drop_last()) + seq![' '] + tokens.last()
    }
}

/// Appends one token.
fn push_word(out: &mut Vec<String>, word: &str)
    ensures
        texts_view(final(out)@) == texts_view(old(out)@).push(word@),
{
    let w = String::from_str(word);
    out.push(w);
    assert(texts_view(out@) =~= texts_view(old(out)@).push(word@));
}

/// Appends one token.
fn push_text(out: &mut Vec<String>, word: String)
    ensures
        texts_view(final(out)@) == texts_view(old(out)@).push(word@),
{
    out.push(word);
    assert(texts_view(out@) =~= texts_view(old(out)@).push(word@));
}

fn sign_of_binary(op: BinaryOp) -> (s: &'static str)
    ensures
        s@ == binary_sign(op),
{
    match op {
        BinaryOp::Add => "+",
        BinaryOp::Sub => "-",
        BinaryOp::Mul => "*",
        BinaryOp::Div => "/",
        BinaryOp::Mod => "%",
        BinaryOp::Pow => "^",
        BinaryOp::Eq => "==",
        BinaryOp::Ne => "!=",
        BinaryOp::Lt => "<",
        BinaryOp::Gt => ">",
        BinaryOp::Lte => "<=",
        BinaryOp::Gte => ">=",
    }
}

fn sign_of_unary(op: UnaryOp) -> (s: &'static str)
    ensures
        s@ == unary_sign(op),
{
    match op {
        UnaryOp::Neg => "-",
        UnaryOp::Not => "!",
    }
}

/// How a `float` literal is written.
pub fn float_to_string(n: &Number) -> (s: String)
    ensures
        s@ == float_text(n@),
{
    let mut s = n.to_string();
    if n.is_whole() {
        s.append(".0");
    }
    s
}

/// Appends the tokens of the arguments of a call.
fn push_args(out: &mut Vec<String>, args: &Vec<ASTNode>)
    ensures
        texts_view(final(out)@) == texts_view(old(out)@) + args_tokens(nodes_view(args@), 0),
    decreases args, 0nat,
{
    let ghost start = texts_view(out@);
    let ghost exprs = nodes_view(args@);
    let mut i: usize = 0;
    while i < args.len()
        invariant
            i <= args.len(),
            exprs == nodes_view(args@),
            start + args_tokens(exprs, 0) == texts_view(out@) + args_tokens(exprs, i as int),
        decreases args.len() - i,
    {
        let ghost before = texts_view(out@);
        assert(exprs[i as int] == args[i as int]@);
        push_expr(out, &args[i]);
        if i + 1 < args.len() {
            push_word(out, ",");
            assert(before + (expr_tokens(exprs[i as int]) + seq![","@] + args_tokens(
                exprs,
                i + 1,
            )) =~= texts_view(out@) + args_tokens(exprs, i + 1));
        } else {
            assert(args_tokens(exprs, i + 1) =~= Seq::empty());
            assert(before + expr_tokens(exprs[i as int]) =~= texts_view(out@) + args_tokens(
                exprs,
                i + 1,
            ));
        }
        i = i + 1;
    }
    assert(args_tokens(exprs, i as int) =~= Seq::empty());
    assert(texts_view(out@) + Seq::<Seq<char>>::empty() =~= texts_view(out@));
}

/// Appends the tokens of an expression.
fn push_expr(out: &mut Vec<String>, node: &ASTNode)
    ensures
        texts_view(final(out)@) == texts_view(old(out)@) + expr_tokens(node@),
    decreases node, 0nat,
{
    let ghost start = texts_view(out@);
    match node {
        ASTNode::Int(i) => {
            push_text(out, Number::from_int(*i).to_string());
            assert(texts_view(out@) =~= start + expr_tokens(node@));
        },
        ASTNode::Float(n) => {
            push_text(out, float_to_string(n));
            assert(texts_view(out@) =~= start + expr_tokens(node@));
        },
        ASTNode::String(s) => {
            let mut t = String::from_str("\"");
            t.append(s.as_str());
            t.append("\"");
            proof {
                reveal_strlit("\"");
                assert("\""@ =~= seq!['"']);
            }
            push_text(out, t);
            assert(texts_view(out@) =~= start + expr_tokens(node@));
        },
        ASTNode::Boolean(b) => {
            if *b {
                push_word(out, "true");
            } else {
                push_word(out, "false");
            }
            assert(texts_view(out@) =~= start + expr_tokens(node@));
        },
        ASTNode::VarRef(name) => {
            push_text(out, name.clone());
            assert(texts_view(out@) =~= start + expr_tokens(node@));
        },
        ASTNode::Binary(op, lhs, rhs) => {
            push_word(out, "(");
            push_expr(out, lhs);
            push_word(out, sign_of_binary(*op));
            push_expr(out, rhs);
            push_word(out, ")");
            assert(texts_view(out@) =~= start + expr_tokens(node@));
        },
        ASTNode::Unary(op, operand) => {
            push_word(out, sign_of_unary(*op));
            push_expr(out, operand);
            assert(texts_view(out@) =~= start + expr_tokens(node@));
        },
        ASTNode::FuncCall(name, args) => {
            push_text(out, name.clone());
            push_word(out, "(");
            push_args(out, args);
            push_word(out, ")");
            assert(texts_view(out@) =~= start + expr_tokens(node@));
        },
        _ => {
            assert(texts_view(out@) =~= start + expr_tokens(node@));
        },
    }
}

/// Appends the tokens of the parameters of a function.
fn push_params(out: &mut Vec<String>, params: &Vec<(String, Type)>)
    ensures
        texts_view(final(out)@) == texts_view(old(out)@) + params_tokens(params_view(params@), 0),
{
    let ghost start = texts_view(out@);
    let ghost ps = params_view(params@);
    let mut i: usize = 0;
    while i < params.len()
        invariant
            i <= params.len(),
            ps == params_view(params@),
            start + params_tokens(ps, 0) == texts_view(out@) + params_tokens(ps, i as int),
        decreases params.len() - i,
    {
        let ghost before = texts_view(out@);
        push_text(out, params[i].0.clone());
        push_word(out, ":");
        push_text(out, params[i].1.to_string());
        let ghost one = seq![ps[i as int].0, ":"@, name_of_type(ps[i as int].1)];
        assert(texts_view(out@) =~= before + one);
        if i + 1 < params.len() {
            push_word(out, ",");
            assert(before + (one + seq![","@] + params_tokens(ps, i + 1)) =~= texts_view(out@)
                + params_tokens(ps, i + 1));
        } else {
            assert(params_tokens(ps, i + 1) =~= Seq::empty());
            assert(before + one =~= texts_view(out@) + params_tokens(ps, i + 1));
        }
        i = i + 1;
    }
    assert(params_tokens(ps, i as int) =~= Seq::empty());
    assert(texts_view(out@) + Seq::<Seq<char>>::empty() =~= texts_view(out@));
}

/// Appends the tokens of a body between its braces.
fn push_block(out: &mut Vec<String>, body: &Vec<ASTNode>)
    ensures
        texts_view(final(out)@) == texts_view(old(out)@) + block_tokens(nodes_view(body@)),
    decreases body, body.len() + 1,
{
    let ghost start = texts_view(out@);
    let ghost exprs = nodes_view(body@);
    push_word(out, "{");
    let ghost opened = texts_view(out@);
    let mut i: usize = 0;
    while i < body.len()
        invariant
            i <= body.len(),
            exprs == nodes_view(body@),
            opened + body_tokens(exprs, 0) == texts_view(out@) + body_tokens(exprs, i as int),
        decreases body.len() - i,
    {
        let ghost before = texts_view(out@);
        assert(exprs[i as int] == body[i as int]@);
        push_stmt(out, &body[i]);
        assert(before + (stmt_tokens(exprs[i as int]) + body_tokens(exprs, i + 1))
            =~= texts_view(out@) + body_tokens(exprs, i + 1));
        i = i + 1;
    }
    assert(body_tokens(exprs, i as int) =~= Seq::empty());
    assert(texts_view(out@) =~= opened + body_tokens(exprs, 0));
    push_word(out, "}");
    assert(texts_view(out@) =~= start + block_tokens(exprs));
}

/// Appends the tokens of the arms of a chain or of a `switch`.
fn push_arms(
    out: &mut Vec<String>,
    arms: &Vec<(ASTNode, Vec<ASTNode>)>,
    word: &str,
    bracketed: bool,
)
    ensures
        texts_view(final(out)@) == texts_view(old(out)@) + arms_tokens(
            arms_view(arms@),
            0,
            word@,
            bracketed,
        ),
    decreases arms, 0nat,
{
    let ghost start = texts_view(out@);
    let ghost models = arms_view(arms@);
    let mut i: usize = 0;
    while i < arms.len()
        invariant
            i <= arms.len(),
            models == arms_view(arms@),
            start + arms_tokens(models, 0, word@, bracketed) == texts_view(out@) + arms_tokens(
                models,
                i as int,
                word@,
                bracketed,
            ),
        decreases arms.len() - i,
    {
        let ghost before = texts_view(out@);
        assert(models[i as int] == (arms[i as int].0@, nodes_view(arms[i as int].1@)));
        push_word(out, word);
        if bracketed {
            push_word(out, "(");
            push_expr(out, &arms[i].0);
            push_word(out, ")");
        } else {
            push_expr(out, &arms[i].0);
        }
        let ghost cond = if bracketed {
            seq!["("@] + expr_tokens(models[i as int].0) + seq![")"@]
        } else {
            expr_tokens(models[i as int].0)
        };
        assert(texts_view(out@) =~= before + (seq![word@] + cond));
        push_block(out, &arms[i].1);
        assert(before + (seq![word@] + cond + block_tokens(models[i as int].1) + arms_tokens(
            models,
            i + 1,
            word@,
            bracketed,
        )) =~= texts_view(out@) + arms_tokens(models, i + 1, word@, bracketed));
        i = i + 1;
    }
    assert(arms_tokens(models, i as int, word@, bracketed) =~= Seq::empty());
    assert(texts_view(out@) + Seq::<Seq<char>>::empty() =~= texts_view(out@));
}

/// Appends the tokens of the step of a `for` loop.
fn push_step(out: &mut Vec<String>, node: &ASTNode)
    ensures
        texts_view(final(out)@) == texts_view(old(out)@) + step_tokens(node@),
    decreases node, 1nat,
{
    let ghost start = texts_view(out@);
    match node {
        ASTNode::Assign(name, value) => {
            push_text(out, name.clone());
            push_word(out, "=");
            push_expr(out, value);
            assert(texts_view(out@) =~= start + step_tokens(node@));
        },
        _ => {
            push_expr(out, node);
        },
    }
}

/// Appends the tokens of an `if` with its arms.
fn push_chain(out: &mut Vec<String>, node: &ASTNode)
    requires
        node is IEE,
    ensures
        texts_view(final(out)@) == texts_view(old(out)@) + stmt_tokens(node@),
    decreases node, 1nat,
{
    let ghost start = texts_view(out@);
    match node {
        ASTNode::IEE(cond, body, elifs, otherwise) => {
            push_word(out, "if");
            push_word(out, "(");
            push_expr(out, cond);
            push_word(out, ")");
            let ghost head = seq!["if"@, "("@] + expr_tokens(cond@) + seq![")"@];
            assert(texts_view(out@) =~= start + head);
            push_block(out, body);
            push_arms(out, elifs, "elif", true);
            let ghost middle = head + block_tokens(nodes_view(body@)) + arms_tokens(
                arms_view(elifs@),
                0,
                "elif"@,
                true,
            );
            assert(texts_view(out@) =~= start + middle);
            match otherwise {
                Some(b) => {
                    push_word(out, "else");
                    push_block(out, b);
                    assert(texts_view(out@) =~= start + (middle + (seq!["else"@] + block_tokens(
                        nodes_view(b@),
                    ))));
                },
                None => {
                    assert(texts_view(out@) =~= start + (middle + Seq::<Seq<char>>::empty()));
                },
            }
        },
        _ => {},
    }
}

/// Appends the tokens of a `switch`.
fn push_switch(out: &mut Vec<String>, node: &ASTNode)
    requires
        node is Switch,
    ensures
        texts_view(final(out)@) == texts_view(old(out)@) + stmt_tokens(node@),
    decreases node, 1nat,
{
    let ghost start = texts_view(out@);
    match node {
        ASTNode::Switch(subject, cases, default) => {
            push_word(out, "switch");
            push_word(out, "(");
            push_expr(out, subject);
            push_word(out, ")");
            push_word(out, "{");
            let ghost head = seq!["switch"@, "("@] + expr_tokens(subject@) + seq![")"@, "{"@];
            assert(texts_view(out@) =~= start + head);
            push_arms(out, cases, "case", false);
            let ghost middle = head + arms_tokens(arms_view(cases@), 0, "case"@, false);
            assert(texts_view(out@) =~= start + middle);
            match default {
                Some(b) => {
                    push_word(out, "default");
                    push_block(out, b);
                    push_word(out, "}");
                    assert(texts_view(out@) =~= start + (middle + (seq!["default"@]
                        + block_tokens(nodes_view(b@))) + seq!["}"@]));
                },
                None => {
                    push_word(out, "}");
                    assert(texts_view(out@) =~= start + (middle + Seq::<Seq<char>>::empty()
                        + seq!["}"@]));
                },
            }
        },
        _ => {},
    }
}

/// Appends the tokens of a loop.
fn push_loop(out: &mut Vec<String>, node: &ASTNode)
    requires
        node is For || node is While,
    ensures
        texts_view(final(out)@) == texts_view(old(out)@) + stmt_tokens(node@),
    decreases node, 1nat,
{
    let ghost start = texts_view(out@);
    match node {
        ASTNode::For(var, cond, step, body) => {
            push_word(out, "for");
            push_word(out, "(");
            push_text(out, var.clone());
            push_word(out, ";");
            push_expr(out, cond);
            push_word(out, ";");
            let ghost head = seq!["for"@, "("@, var@, ";"@] + expr_tokens(cond@) + seq![";"@];
            assert(texts_view(out@) =~= start + head);
            push_step(out, step);
            push_word(out, ")");
            push_block(out, body);
            assert(texts_view(out@) =~= start + (head + step_tokens(step@) + seq![")"@]
                + block_tokens(nodes_view(body@))));
        },
        ASTNode::While(cond, body) => {
            push_word(out, "while");
            push_word(out, "(");
            push_expr(out, cond);
            push_word(out, ")");
            push_block(out, body);
            assert(texts_view(out@) =~= start + stmt_tokens(node@));
        },
        _ => {},
    }
}

/// Appends the tokens of the declaration of a function.
fn push_function(out: &mut Vec<String>, node: &ASTNode)
    requires
        node is FuncDef,
    ensures
        texts_view(final(out)@) == texts_view(old(out)@) + stmt_tokens(node@),
    decreases node, 1nat,
{
    let ghost start = texts_view(out@);
    match node {
        ASTNode::FuncDef(name, params, ret, body) => {
            push_word(out, "func");
            push_text(out, name.clone());
            push_word(out, "(");
            push_params(out, params);
            let ghost head = seq!["func"@, name@, "("@] + params_tokens(params_view(params@), 0);
            assert(texts_view(out@) =~= start + head);
            push_word(out, ")");
            push_word(out, ":");
            push_text(out, ret.to_string());
            push_block(out, body);
            assert(texts_view(out@) =~= start + (head + seq![")"@, ":"@, name_of_type(*ret)]
                + block_tokens(nodes_view(body@))));
        },
        _ => {},
    }
}

/// Appends the tokens of a statement.
fn push_stmt(out: &mut Vec<String>, node: &ASTNode)
    ensures
        texts_view(final(out)@) == texts_view(old(out)@) + stmt_tokens(node@),
    decreases node, 2nat,
{
    let ghost start = texts_view(out@);
    match node {
        ASTNode::Let(name, typ, init) => {
            push_word(out, "let");
            push_text(out, name.clone());
            push_word(out, ":");
            push_text(out, typ.to_string());
            push_word(out, "=");
            push_expr(out, init);
            push_word(out, ";");
            assert(texts_view(out@) =~= start + stmt_tokens(node@));
        },
        ASTNode::Assign(name, value) => {
            push_text(out, name.clone());
            push_word(out, "=");
            push_expr(out, value);
            push_word(out, ";");
            assert(texts_view(out@) =~= start + stmt_tokens(node@));
        },
        ASTNode::Del(name) => {
            push_word(out, "del");
            push_text(out, name.clone());
            push_word(out, ";");
            assert(texts_view(out@) =~= start + stmt_tokens(node@));
        },
        ASTNode::IEE(_, _, _, _) => {
            push_chain(out, node);
        },
        ASTNode::Switch(_, _, _) => {
            push_switch(out, node);
        },
        ASTNode::For(_, _, _, _) => {
            push_loop(out, node);
        },
        ASTNode::While(_, _) => {
            push_loop(out, node);
        },
        ASTNode::FuncDef(_, _, _, _) => {
            push_function(out, node);
        },
        ASTNode::Return(value) => {
            push_word(out, "return");
            push_expr(out, value);
            push_word(out, ";");
            assert(texts_view(out@) =~= start + stmt_tokens(node@));
        },
        _ => {
            push_expr(out, node);
            push_word(out, ";");
            assert(texts_view(out@) =~= start + stmt_tokens(node@));
        },
    }
}

/// The tokens that write the statements of a program, one after
/// another.
pub fn program_tokens(nodes: &Vec<ASTNode>) -> (tokens: Vec<String>)
    ensures
        texts_view(tokens@) == body_tokens(nodes_view(nodes@), 0),
{
    let ghost exprs = nodes_view(nodes@);
    let mut out: Vec<String> = Vec::new();
    let mut i: usize = 0;
    assert(texts_view(out@) =~= Seq::empty());
    assert(Seq::<Seq<char>>::empty() + body_tokens(exprs, 0) =~= body_tokens(exprs, 0));
    while i < nodes.len()
        invariant
            i <= nodes.len(),
            exprs == nodes_view(nodes@),
            body_tokens(exprs, 0) == texts_view(out@) + body_tokens(exprs, i as int),
        decreases nodes.len() - i,
    {
        let ghost before = texts_view(out@);
        assert(exprs[i as int] == nodes[i as int]@);
        push_stmt(&mut out, &nodes[i]);
        assert(before + (stmt_tokens(exprs[i as int]) + body_tokens(exprs, i + 1))
            =~= texts_view(out@) + body_tokens(exprs, i + 1));
        i = i + 1;
    }
    assert(body_tokens(exprs, i as int) =~= Seq::empty());
    assert(texts_view(out@) + Seq::<Seq<char>>::empty() =~= texts_view(out@));
    out
}

impl ASTNode {
    /// The tokens that write the node as a statement.
    pub fn to_tokens(&self) -> (tokens: Vec<String>)
        ensures
            texts_view(tokens@) == stmt_tokens(self@),
    {
        let mut out: Vec<String> = Vec::new();
        assert(texts_view(out@) =~= Seq::empty());
        push_stmt(&mut out, self);
        assert(Seq::<Seq<char>>::empty() + stmt_tokens(self@) =~= stmt_tokens(self@));
        out
    }

    /// The node written as source text: its tokens with one space
    /// between each two.
    pub fn to_string(&self) -> (s: String)
        ensures
            s@ == spaced_tokens(stmt_tokens(self@)),
    {
        let tokens = self.to_tokens();
        let ghost all = texts_view(tokens@);
        let mut out = String::new();
        let mut i: usize = 0;
        assert(all.take(0) =~= Seq::empty());
        while i < tokens.len()
            invariant
                i <= tokens.len(),
                all == texts_view(tokens@),
                out@ == spaced_tokens(all.take(i as int)),
            decreases tokens.len() - i,
        {
            if i > 0 {
                out.append(" ");
                proof {
                    reveal_strlit(" ");
                    assert(" "@ == seq![' ']);
                }
            }
            out.append(tokens[i].as_str());
            assert(all.take(i + 1).drop_last() == all.take(i as int));
            assert(all.take(i + 1).last() == all[i as int]);
            assert(all.take(i + 1)[0] == all[0]);
            i = i + 1;
        }
        assert(all.take(i as int) == all);
        out
    }

    /// The same as [`ASTNode::to_string`].
    pub fn to_ast(&self) -> (s: String)
        ensures
            s@ == spaced_tokens(stmt_tokens(self@)),
    {
        self.to_string()
    }
}

} // verus!
