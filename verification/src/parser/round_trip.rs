//! Proofs that expressions that are written out are read back as
//! themselves.

use vstd::prelude::*;
use crate::ast::printer::{args_tokens, binary_sign, expr_tokens, float_text, unary_sign};
use crate::ast::{Expr};
use crate::env::find;
use crate::error_handler::ErrorKind;
use crate::interp::builtins::builtin_of;
use crate::literal::written::{
    decimal_text,
    lemma_decimal_reads_back,
    lemma_read_is_in_range,
    lemma_whole_reads_back,
};
use crate::literal::{is_digit};
use crate::number::{digits, number_text, trunc_rem, MAX_UNITS, SCALE};
use crate::parser::grammar::{
    at,
    expect,
    forward,
    is_identifier,
    is_name,
    is_string_token,
    operator_at,
    parse_args,
    parse_atom,
    parse_expr,
    parse_power,
    parse_tier,
    parse_tier_rest,
    parse_unary,
    Symbols,
};
use crate::parser::words::{
    is_stop,
    lemma_marks,
    lemma_names,
    lemma_signs,
    lemma_stops,
    level_of,
};

verus! {

/// Whether an expression is one that the parser builds when the names
/// of `table` are declared: its numbers are not negative and fit, its
/// names are names, its variables and functions are known.
pub open spec fn well_formed(e: Expr, table: Symbols) -> bool
    decreases e,
{
    match e {
        Expr::Int(i) => 0 <= i <= i64::MAX,
        Expr::Float(u) => 0 <= u <= MAX_UNITS,
        Expr::Str(_) => true,
        Expr::Boolean(_) => true,
        Expr::VarRef(name) => is_name(name) && find(table.vars, name) is Some,
        Expr::Unary(_, operand) => well_formed(*operand, table),
        Expr::Binary(_, lhs, rhs) => well_formed(*lhs, table) && well_formed(*rhs, table),
        Expr::FuncCall(name, args) => is_name(name) && (builtin_of(name) is Some || find(
            table.funcs,
            name,
        ) is Some) && forall|i: int| 0 <= i < args.len() ==> well_formed(#[trigger] args[i], table),
        _ => false,
    }
}

/// Whether the tokens from `pos` on are `part`.
pub open spec fn holds_at(toks: Seq<Seq<char>>, pos: int, part: Seq<Seq<char>>) -> bool {
    0 <= pos && pos + part.len() <= toks.len() && toks.subrange(pos, pos + part.len()) == part
}

/// Whether no expression goes on at `pos`: the tokens end there, or a
/// closing bracket, a comma, a semicolon or an opening brace stands
/// there.
pub open spec fn stops(toks: Seq<Seq<char>>, pos: int) -> bool {
    pos >= toks.len() || (0 <= pos && is_stop(toks[pos]))
}

/// Whether an expression of precedence `level` ends before `pos`: what
/// stands there is no opening bracket, no `^`, and no operator of that
/// level or a tighter one.
pub open spec fn passes(toks: Seq<Seq<char>>, pos: int, level: int) -> bool {
    pos >= toks.len() || (0 <= pos && toks[pos] != "("@ && toks[pos] != "^"@ && forall|j: int|
        level <= j < 4 ==> operator_at(j, toks[pos]) is None)
}

/// A part of a part of the tokens stands where it should.
pub proof fn lemma_part(toks: Seq<Seq<char>>, pos: int, whole: Seq<Seq<char>>, a: int, b: int)
    requires
        holds_at(toks, pos, whole),
        0 <= a <= b <= whole.len(),
    ensures
        holds_at(toks, pos + a, whole.subrange(a, b)),
        forall|k: int| 0 <= k < whole.len() ==> toks[pos + k] == whole[k],
{
    assert(toks.subrange(pos + a, pos + b) =~= toks.subrange(pos, pos + whole.len()).subrange(
        a,
        b,
    ));
    assert forall|k: int| 0 <= k < whole.len() implies toks[pos + k] == whole[k] by {
        assert(toks.subrange(pos, pos + whole.len())[k] == toks[pos + k]);
    }
}

/// Where no expression goes on, an expression of any level ends.
pub proof fn lemma_stops_pass(toks: Seq<Seq<char>>, pos: int, level: int)
    requires
        stops(toks, pos),
    ensures
        passes(toks, pos, level),
        !at(toks, pos, "("@),
        !at(toks, pos, "^"@),
{
    if pos < toks.len() {
        assert forall|j: int| level <= j < 4 implies operator_at(j, toks[pos]) is None by {
            lemma_stops(toks[pos], j);
        }
        lemma_stops(toks[pos], 0);
    }
}

/// How a whole number and a number with a fraction are written, where
/// they are not negative.
pub proof fn lemma_number_texts(i: int, units: int)
    requires
        0 <= i,
        0 <= units,
    ensures
        number_text(i * SCALE) == digits(i as nat),
        float_text(units) == decimal_text(units),
{
    reveal_strlit(".0");
    assert(".0"@ =~= seq!['.'] + seq!['0']);
    assert((i * SCALE) / (SCALE as int) == i);
    assert((i * SCALE) % (SCALE as int) == 0);
    assert(digits(i as nat) + Seq::<char>::empty() =~= digits(i as nat));
    let w = digits((units / (SCALE as int)) as nat);
    assert(trunc_rem(units, SCALE as int) == units % (SCALE as int));
    if units % (SCALE as int) == 0 {
        assert(w + Seq::<char>::empty() + ".0"@ =~= w + seq!['.'] + seq!['0']);
    } else {
        let f = crate::number::fraction_digits((units % (SCALE as int)) as nat, 100_000_000);
        assert(w + (seq!['.'] + f) =~= w + seq!['.'] + f);
    }
}

/// The tokens of a well-formed expression are not none, and the first
/// of them is no closing bracket.
pub proof fn lemma_first_token(e: Expr, table: Symbols)
    requires
        well_formed(e, table),
    ensures
        expr_tokens(e).len() >= 1,
        expr_tokens(e)[0] != ")"@,
{
    lemma_marks();
    assert(")"@[0] == ')' && ")"@.len() == 1);
    match e {
        Expr::Int(i) => {
            lemma_number_texts(i, 0);
            lemma_whole_reads_back(i);
        },
        Expr::Float(u) => {
            lemma_number_texts(0, u);
            lemma_decimal_reads_back(u);
        },
        Expr::Str(s) => {
            assert(expr_tokens(e)[0][0] == '"');
        },
        Expr::Boolean(b) => {
            assert("true"@[0] == 't' && "false"@[0] == 'f');
        },
        Expr::VarRef(name) => {
            lemma_names(name);
        },
        Expr::Unary(op, operand) => {
            assert("-"@[0] == '-' && "!"@[0] == '!');
            assert(expr_tokens(e)[0] == unary_sign(op));
        },
        Expr::Binary(op, lhs, rhs) => {
            assert(expr_tokens(e)[0] == "("@);
            assert("("@[0] == '(');
        },
        Expr::FuncCall(name, args) => {
            lemma_names(name);
            assert(expr_tokens(e)[0] == name);
        },
        _ => {},
    }
}

/// A written whole number reads back.
proof fn lemma_whole_token(i: int, table: Symbols, toks: Seq<Seq<char>>, pos: int)
    requires
        0 <= i <= i64::MAX,
        0 <= pos < toks.len(),
        toks[pos] == number_text(i * SCALE),
    ensures
        parse_unary(toks, pos, table) == Ok::<(Expr, int), ErrorKind>((Expr::Int(i), pos + 1)),
{
    lemma_marks();
    lemma_number_texts(i, 0);
    lemma_whole_reads_back(i);
    let t = toks[pos];
    assert(is_digit(t[0]));
    assert("("@[0] == '(' && "-"@[0] == '-' && "!"@[0] == '!' && "true"@[0] == 't' && "false"@[0]
        == 'f');
    assert(!is_identifier(t));
    assert(!is_string_token(t));
    assert(parse_atom(toks, pos, table) == Ok::<(Expr, int), ErrorKind>((Expr::Int(i), pos + 1)));
}

/// A written number with a fraction reads back.
proof fn lemma_decimal_token(u: int, table: Symbols, toks: Seq<Seq<char>>, pos: int)
    requires
        0 <= u <= MAX_UNITS,
        0 <= pos < toks.len(),
        toks[pos] == float_text(u),
    ensures
        parse_unary(toks, pos, table) == Ok::<(Expr, int), ErrorKind>((Expr::Float(u), pos + 1)),
{
    lemma_marks();
    lemma_number_texts(0, u);
    lemma_decimal_reads_back(u);
    let t = toks[pos];
    assert(is_digit(t[0]));
    assert("("@[0] == '(' && "-"@[0] == '-' && "!"@[0] == '!' && "true"@[0] == 't' && "false"@[0]
        == 'f');
    assert(!is_identifier(t));
    assert(!is_string_token(t));
    assert(parse_atom(toks, pos, table) == Ok::<(Expr, int), ErrorKind>((Expr::Float(u), pos + 1)));
}

/// A written text reads back.
proof fn lemma_text_token(s: Seq<char>, table: Symbols, toks: Seq<Seq<char>>, pos: int)
    requires
        0 <= pos < toks.len(),
        toks[pos] == seq!['"'] + s + seq!['"'],
    ensures
        parse_unary(toks, pos, table) == Ok::<(Expr, int), ErrorKind>((Expr::Str(s), pos + 1)),
{
    lemma_marks();
    let t = toks[pos];
    assert(t[0] == '"');
    assert(t[t.len() - 1] == '"');
    assert(t.subrange(1, t.len() - 1) =~= s);
    assert(is_string_token(t));
    assert("("@[0] == '(' && "-"@[0] == '-' && "!"@[0] == '!' && "true"@[0] == 't' && "false"@[0]
        == 'f');
    assert(parse_atom(toks, pos, table) == Ok::<(Expr, int), ErrorKind>((Expr::Str(s), pos + 1)));
}

/// A written truth value reads back.
proof fn lemma_truth_token(b: bool, table: Symbols, toks: Seq<Seq<char>>, pos: int)
    requires
        0 <= pos < toks.len(),
        toks[pos] == if b {
            "true"@
        } else {
            "false"@
        },
    ensures
        parse_unary(toks, pos, table) == Ok::<(Expr, int), ErrorKind>((Expr::Boolean(b), pos + 1)),
{
    lemma_marks();
    assert("("@[0] == '(' && "-"@[0] == '-' && "!"@[0] == '!' && "true"@[0] == 't' && "false"@[0]
        == 'f');
    assert(parse_atom(toks, pos, table) == Ok::<(Expr, int), ErrorKind>(
        (Expr::Boolean(b), pos + 1),
    ));
}

/// The name of a known variable reads back, unless an opening bracket
/// follows it.
proof fn lemma_name_token(name: Seq<char>, table: Symbols, toks: Seq<Seq<char>>, pos: int)
    requires
        is_name(name),
        find(table.vars, name) is Some,
        0 <= pos < toks.len(),
        toks[pos] == name,
        !at(toks, pos + 1, "("@),
    ensures
        parse_unary(toks, pos, table) == Ok::<(Expr, int), ErrorKind>((Expr::VarRef(name), pos + 1)),
{
    lemma_names(name);
    assert(parse_atom(toks, pos, table) == Ok::<(Expr, int), ErrorKind>(
        (Expr::VarRef(name), pos + 1),
    ));
}

/// A written operand with a sign before it reads back.
proof fn lemma_signed_reads_back(e: Expr, table: Symbols, toks: Seq<Seq<char>>, pos: int)
    requires
        e is Unary,
        well_formed(e, table),
        holds_at(toks, pos, expr_tokens(e)),
        !at(toks, pos + expr_tokens(e).len(), "("@),
    ensures
        parse_unary(toks, pos, table) == Ok::<(Expr, int), ErrorKind>(
            (e, pos + expr_tokens(e).len()),
        ),
    decreases e, 0nat, 0nat,
{
    let whole = expr_tokens(e);
    let n = whole.len() as int;
    lemma_marks();
    match e {
        Expr::Unary(op, operand) => {
            let inner = expr_tokens(*operand);
            assert(whole == seq![unary_sign(op)] + inner);
            assert(whole.subrange(1, n) =~= inner);
            lemma_part(toks, pos, whole, 1, n);
            assert(toks[pos] == whole[0]);
            assert("-"@[0] == '-' && "!"@[0] == '!');
            lemma_operand_reads_back(*operand, table, toks, pos + 1);
        },
        _ => {},
    }
}

/// A written operator with its operands in brackets reads back.
proof fn lemma_bracketed_reads_back(e: Expr, table: Symbols, toks: Seq<Seq<char>>, pos: int)
    requires
        e is Binary,
        well_formed(e, table),
        holds_at(toks, pos, expr_tokens(e)),
    ensures
        parse_unary(toks, pos, table) == Ok::<(Expr, int), ErrorKind>(
            (e, pos + expr_tokens(e).len()),
        ),
    decreases e, 0nat, 10nat,
{
    let whole = expr_tokens(e);
    let n = whole.len() as int;
    lemma_marks();
    match e {
        Expr::Binary(op, lhs, rhs) => {
            let left = expr_tokens(*lhs);
            let right = expr_tokens(*rhs);
            let inside = left + seq![binary_sign(op)] + right;
            assert(whole == seq!["("@] + left + seq![binary_sign(op)] + right + seq![")"@]);
            assert(whole.subrange(1, n - 1) =~= inside);
            lemma_part(toks, pos, whole, 1, n - 1);
            assert(toks[pos] == whole[0]);
            assert(toks[pos + n - 1] == whole[n - 1]);
            assert(whole[n - 1] == ")"@);
            lemma_binary_reads_back(e, table, toks, pos + 1, 0);
            assert(parse_tier(toks, pos + 1, table, 0) == Ok::<(Expr, int), ErrorKind>(
                (e, pos + n - 1),
            ));
            assert(expect(toks, pos + n - 1, ")"@) == Ok::<int, ErrorKind>(pos + n));
            assert("("@[0] == '(' && "-"@[0] == '-' && "!"@[0] == '!');
            assert(parse_atom(toks, pos, table) == Ok::<(Expr, int), ErrorKind>((e, pos + n)));
        },
        _ => {},
    }
}

/// A written call reads back.
proof fn lemma_call_reads_back(e: Expr, table: Symbols, toks: Seq<Seq<char>>, pos: int)
    requires
        e is FuncCall,
        well_formed(e, table),
        holds_at(toks, pos, expr_tokens(e)),
    ensures
        parse_unary(toks, pos, table) == Ok::<(Expr, int), ErrorKind>(
            (e, pos + expr_tokens(e).len()),
        ),
    decreases e, 0nat, 0nat,
{
    let whole = expr_tokens(e);
    let n = whole.len() as int;
    lemma_marks();
    match e {
        Expr::FuncCall(name, args) => {
            lemma_names(name);
            let listed = args_tokens(args, 0);
            assert(whole == seq![name, "("@] + listed + seq![")"@]);
            lemma_part(toks, pos, whole, 0, n);
            assert(toks[pos] == whole[0]);
            assert(toks[pos + 1] == whole[1]);
            assert(whole[1] == "("@);
            assert(toks[pos + 2] == whole[2]);
            if args.len() == 0 {
                assert(listed =~= Seq::<Seq<char>>::empty());
                assert(args =~= Seq::<Expr>::empty());
                assert(parse_atom(toks, pos, table) == Ok::<(Expr, int), ErrorKind>(
                    (e, pos + 3),
                ));
            } else {
                lemma_first_token(args[0], table);
                assert(listed[0] == expr_tokens(args[0])[0]);
                assert(whole[2] == listed[0]);
                assert(whole.subrange(2, n) =~= listed + seq![")"@]);
                lemma_part(toks, pos, whole, 2, n);
                lemma_args_read_back(args, 0, table, toks, pos + 2, Seq::empty());
                assert(Seq::<Expr>::empty() + args.subrange(0, args.len() as int) =~= args);
                assert(parse_args(toks, pos + 2, table, Seq::empty()) == Ok::<
                    (Seq<Expr>, int),
                    ErrorKind,
                >((args, pos + n)));
                assert(parse_atom(toks, pos, table) == Ok::<(Expr, int), ErrorKind>((e, pos + n)));
            }
        },
        _ => {},
    }
}

/// The tokens of a well-formed expression read back as the expression
/// where an operand is expected, unless an opening bracket follows
/// them.
pub proof fn lemma_operand_reads_back(e: Expr, table: Symbols, toks: Seq<Seq<char>>, pos: int)
    requires
        well_formed(e, table),
        holds_at(toks, pos, expr_tokens(e)),
        !at(toks, pos + expr_tokens(e).len(), "("@),
    ensures
        parse_unary(toks, pos, table) == Ok::<(Expr, int), ErrorKind>(
            (e, pos + expr_tokens(e).len()),
        ),
    decreases e, 1nat, 0nat,
{
    let whole = expr_tokens(e);
    lemma_first_token(e, table);
    lemma_part(toks, pos, whole, 0, whole.len() as int);
    assert(toks[pos] == whole[0]);
    match e {
        Expr::Int(i) => {
            lemma_whole_token(i, table, toks, pos);
        },
        Expr::Float(u) => {
            lemma_decimal_token(u, table, toks, pos);
        },
        Expr::Str(s) => {
            lemma_text_token(s, table, toks, pos);
        },
        Expr::Boolean(b) => {
            lemma_truth_token(b, table, toks, pos);
        },
        Expr::VarRef(name) => {
            lemma_name_token(name, table, toks, pos);
        },
        Expr::Unary(_, _) => {
            lemma_signed_reads_back(e, table, toks, pos);
        },
        Expr::Binary(_, _, _) => {
            lemma_bracketed_reads_back(e, table, toks, pos);
        },
        Expr::FuncCall(_, _) => {
            lemma_call_reads_back(e, table, toks, pos);
        },
        _ => {},
    }
}

/// The tokens of a well-formed expression read back as the expression
/// at every level of precedence at which what follows them ends an
/// expression.
pub proof fn lemma_tier_reads_back(
    e: Expr,
    table: Symbols,
    toks: Seq<Seq<char>>,
    pos: int,
    level: int,
)
    requires
        well_formed(e, table),
        holds_at(toks, pos, expr_tokens(e)),
        passes(toks, pos + expr_tokens(e).len(), level),
        0 <= level,
    ensures
        parse_tier(toks, pos, table, level) == Ok::<(Expr, int), ErrorKind>(
            (e, pos + expr_tokens(e).len()),
        ),
    decreases e, 2nat,
        if level < 4 {
            4 - level
        } else {
            0
        },
{
    let end = pos + expr_tokens(e).len();
    lemma_first_token(e, table);
    lemma_operand_reads_back(e, table, toks, pos);
    if level >= 4 {
        assert(parse_power(toks, pos, table) == Ok::<(Expr, int), ErrorKind>((e, end)));
    } else {
        assert(passes(toks, end, level + 1));
        lemma_tier_reads_back(e, table, toks, pos, level + 1);
        assert(parse_tier_rest(toks, end, table, level, e) == Ok::<(Expr, int), ErrorKind>(
            (e, end),
        ));
    }
}

/// Two well-formed operands with the sign of an operator between them
/// and a closing bracket after them read back as the operator applied
/// to them, at the level of the operator and at every looser one.
pub proof fn lemma_binary_reads_back(
    e: Expr,
    table: Symbols,
    toks: Seq<Seq<char>>,
    pos: int,
    level: int,
)
    requires
        e is Binary,
        well_formed(e, table),
        holds_at(
            toks,
            pos,
            expr_tokens(*e->Binary_1) + seq![binary_sign(e->Binary_0)] + expr_tokens(
                *e->Binary_2,
            ),
        ),
        at(
            toks,
            pos + expr_tokens(*e->Binary_1).len() + 1 + expr_tokens(*e->Binary_2).len(),
            ")"@,
        ),
        0 <= level <= level_of(e->Binary_0),
    ensures
        parse_tier(toks, pos, table, level) == Ok::<(Expr, int), ErrorKind>(
            (e, pos + expr_tokens(*e->Binary_1).len() + 1 + expr_tokens(*e->Binary_2).len()),
        ),
    decreases e, 0nat, level_of(e->Binary_0) - level,
{
    match e {
        Expr::Binary(op, yl, yr) => {
            let lhs = *yl;
            let rhs = *yr;
            let left = expr_tokens(lhs);
            let right = expr_tokens(rhs);
            let sign = binary_sign(op);
            let inside = left + seq![sign] + right;
            let n = inside.len() as int;
            let m1 = pos + left.len();
            let m2 = pos + n;
            lemma_first_token(lhs, table);
            lemma_first_token(rhs, table);
            lemma_marks();
            assert(inside.subrange(0, left.len() as int) =~= left);
            assert(inside.subrange(left.len() as int + 1, n) =~= right);
            lemma_part(toks, pos, inside, 0, left.len() as int);
            lemma_part(toks, pos, inside, left.len() as int + 1, n);
            assert(toks[m1] == inside[left.len() as int]);
            assert(toks[m1] == sign);
            assert(is_stop(toks[m2]));
            lemma_stops_pass(toks, m2, 0);
            lemma_signs(op, level);
            let k = level_of(op);
            if level < k {
                lemma_binary_reads_back(e, table, toks, pos, level + 1);
                lemma_stops(toks[m2], level);
                assert(parse_tier_rest(toks, m2, table, level, e) == Ok::<
                    (Expr, int),
                    ErrorKind,
                >((e, m2)));
            } else if k == 4 {
                lemma_operand_reads_back(lhs, table, toks, pos);
                lemma_stops_pass(toks, m2, 4);
                lemma_tier_reads_back(rhs, table, toks, m1 + 1, 4);
                assert(parse_power(toks, m1 + 1, table) == Ok::<(Expr, int), ErrorKind>(
                    (rhs, m2),
                ));
                assert(parse_power(toks, pos, table) == Ok::<(Expr, int), ErrorKind>((e, m2)));
            } else {
                assert forall|j: int| level + 1 <= j < 4 implies operator_at(j, toks[m1])
                    is None by {
                    lemma_signs(op, j);
                }
                assert(passes(toks, m1, level + 1));
                lemma_tier_reads_back(lhs, table, toks, pos, level + 1);
                lemma_stops_pass(toks, m2, level + 1);
                lemma_tier_reads_back(rhs, table, toks, m1 + 1, level + 1);
                lemma_stops(toks[m2], level);
                assert(parse_tier_rest(toks, m2, table, level, e) == Ok::<
                    (Expr, int),
                    ErrorKind,
                >((e, m2)));
                assert(parse_tier_rest(toks, m1, table, level, lhs) == Ok::<
                    (Expr, int),
                    ErrorKind,
                >((e, m2)));
            }
        },
        _ => {},
    }
}

/// The tokens of well-formed arguments with commas between them and a
/// closing bracket after them read back as the arguments.
pub proof fn lemma_args_read_back(
    args: Seq<Expr>,
    from: int,
    table: Symbols,
    toks: Seq<Seq<char>>,
    pos: int,
    before: Seq<Expr>,
)
    requires
        0 <= from < args.len(),
        forall|i: int| 0 <= i < args.len() ==> well_formed(#[trigger] args[i], table),
        holds_at(toks, pos, args_tokens(args, from) + seq![")"@]),
    ensures
        parse_args(toks, pos, table, before) == Ok::<(Seq<Expr>, int), ErrorKind>(
            (
                before + args.subrange(from, args.len() as int),
                pos + args_tokens(args, from).len() + 1,
            ),
        ),
    decreases args, args.len() - from,
{
    let listed = args_tokens(args, from);
    let whole = listed + seq![")"@];
    let n = whole.len() as int;
    let first = expr_tokens(args[from]);
    let p = pos + first.len();
    lemma_marks();
    lemma_first_token(args[from], table);
    assert(well_formed(args[from], table));
    assert(whole.subrange(0, first.len() as int) =~= first);
    lemma_part(toks, pos, whole, 0, first.len() as int);
    assert(toks[p] == whole[first.len() as int]);
    if from + 1 < args.len() {
        let later = args_tokens(args, from + 1);
        assert(listed == first + seq![","@] + later);
        assert(toks[p] == ","@);
        lemma_stops_pass(toks, p, 0);
        lemma_tier_reads_back(args[from], table, toks, pos, 0);
        assert(whole.subrange(first.len() as int + 1, n) =~= later + seq![")"@]);
        lemma_part(toks, pos, whole, first.len() as int + 1, n);
        lemma_args_read_back(args, from + 1, table, toks, p + 1, before.push(args[from]));
        assert(before.push(args[from]) + args.subrange(from + 1, args.len() as int) =~= before
            + args.subrange(from, args.len() as int));
    } else {
        assert(listed == first);
        assert(toks[p] == ")"@);
        lemma_stops_pass(toks, p, 0);
        lemma_tier_reads_back(args[from], table, toks, pos, 0);
        assert(","@[0] == ',' && ")"@[0] == ')');
        assert(!at(toks, p, ","@));
        assert(before.push(args[from]) =~= before + args.subrange(from, args.len() as int));
    }
}

/// The tokens of a well-formed expression read back as the expression,
/// where they stand alone or before a token that ends an expression.
pub proof fn law_written_expression_reads_back(
    e: Expr,
    table: Symbols,
    toks: Seq<Seq<char>>,
    pos: int,
)
    requires
        well_formed(e, table),
        holds_at(toks, pos, expr_tokens(e)),
        stops(toks, pos + expr_tokens(e).len()),
    ensures
        parse_expr(toks, pos, table) == Ok::<(Expr, int), ErrorKind>(
            (e, pos + expr_tokens(e).len()),
        ),
{
    lemma_first_token(e, table);
    lemma_stops_pass(toks, pos + expr_tokens(e).len(), 0);
    lemma_tier_reads_back(e, table, toks, pos, 0);
}

/// What the parser reads at a level of precedence is well formed.
pub proof fn lemma_parsed_tier(toks: Seq<Seq<char>>, pos: int, table: Symbols, level: int)
    ensures
        parse_tier(toks, pos, table, level) matches Ok((e, _)) ==> well_formed(e, table),
    decreases toks.len() - pos,
        if 0 <= level < 4 {
            20 - 2 * level
        } else {
            11
        },
{
    if pos < 0 || pos >= toks.len() {
    } else if level < 0 || level >= 4 {
        lemma_parsed_power(toks, pos, table);
    } else {
        lemma_parsed_tier(toks, pos, table, level + 1);
        match forward(parse_tier(toks, pos, table, level + 1), pos, toks.len()) {
            Ok((lhs, p)) => {
                lemma_parsed_tier_rest(toks, p, table, level, lhs);
            },
            Err(_) => {},
        }
    }
}

/// What the parser makes of a chain of operators is well formed where
/// its first operands are.
pub proof fn lemma_parsed_tier_rest(
    toks: Seq<Seq<char>>,
    pos: int,
    table: Symbols,
    level: int,
    lhs: Expr,
)
    requires
        well_formed(lhs, table),
    ensures
        parse_tier_rest(toks, pos, table, level, lhs) matches Ok((e, _)) ==> well_formed(e, table),
    decreases toks.len() - pos, 30int,
{
    if 0 <= pos < toks.len() && 0 <= level < 4 {
        match operator_at(level, toks[pos]) {
            Some(op) => {
                lemma_parsed_tier(toks, pos + 1, table, level + 1);
                match forward(parse_tier(toks, pos + 1, table, level + 1), pos + 1, toks.len()) {
                    Ok((rhs, p)) => {
                        lemma_parsed_tier_rest(
                            toks,
                            p,
                            table,
                            level,
                            Expr::Binary(op, Box::new(lhs), Box::new(rhs)),
                        );
                    },
                    Err(_) => {},
                }
            },
            None => {},
        }
    }
}

/// What the parser reads as a power is well formed.
pub proof fn lemma_parsed_power(toks: Seq<Seq<char>>, pos: int, table: Symbols)
    ensures
        parse_power(toks, pos, table) matches Ok((e, _)) ==> well_formed(e, table),
    decreases toks.len() - pos, 10int,
{
    if 0 <= pos < toks.len() {
        lemma_parsed_unary(toks, pos, table);
        match forward(parse_unary(toks, pos, table), pos, toks.len()) {
            Ok((base, p)) => {
                if at(toks, p, "^"@) {
                    lemma_parsed_power(toks, p + 1, table);
                }
            },
            Err(_) => {},
        }
    }
}

/// What the parser reads as an operand with its signs is well formed.
pub proof fn lemma_parsed_unary(toks: Seq<Seq<char>>, pos: int, table: Symbols)
    ensures
        parse_unary(toks, pos, table) matches Ok((e, _)) ==> well_formed(e, table),
    decreases toks.len() - pos, 9int,
{
    if 0 <= pos < toks.len() {
        if toks[pos] == "-"@ || toks[pos] == "!"@ {
            lemma_parsed_unary(toks, pos + 1, table);
        } else {
            lemma_parsed_atom(toks, pos, table);
        }
    }
}

/// What the parser reads as an operand is well formed.
pub proof fn lemma_parsed_atom(toks: Seq<Seq<char>>, pos: int, table: Symbols)
    ensures
        parse_atom(toks, pos, table) matches Ok((e, _)) ==> well_formed(e, table),
    decreases toks.len() - pos, 8int,
{
    if 0 <= pos < toks.len() {
        let t = toks[pos];
        if t == "("@ {
            lemma_parsed_tier(toks, pos + 1, table, 0);
        } else if t == "true"@ || t == "false"@ || is_string_token(t) {
        } else if is_name(t) {
            if at(toks, pos + 1, "("@) && !(builtin_of(t) is None && find(table.funcs, t) is None)
                && !at(toks, pos + 2, ")"@) {
                lemma_parsed_args(toks, pos + 2, table, Seq::empty());
            }
        } else {
            lemma_read_is_in_range(t);
        }
    }
}

/// The arguments that the parser reads are well formed where those
/// before them are.
pub proof fn lemma_parsed_args(toks: Seq<Seq<char>>, pos: int, table: Symbols, before: Seq<Expr>)
    requires
        forall|i: int| 0 <= i < before.len() ==> well_formed(#[trigger] before[i], table),
    ensures
        parse_args(toks, pos, table, before) matches Ok((args, _)) ==> forall|i: int|
            0 <= i < args.len() ==> well_formed(#[trigger] args[i], table),
    decreases toks.len() - pos, 40int,
{
    lemma_parsed_tier(toks, pos, table, 0);
    match forward(parse_tier(toks, pos, table, 0), pos, toks.len()) {
        Ok((e, p)) => {
            let more = before.push(e);
            assert forall|i: int| 0 <= i < more.len() implies well_formed(
                #[trigger] more[i],
                table,
            ) by {
                if i < before.len() {
                    assert(more[i] == before[i]);
                }
            }
            if at(toks, p, ","@) {
                lemma_parsed_args(toks, p + 1, table, more);
            }
        },
        Err(_) => {},
    }
}

/// An expression that has been parsed can be written out and parsed
/// again, and is then the same expression: its tokens, standing alone,
/// read back as it.
pub proof fn law_expression_round_trip(toks: Seq<Seq<char>>, pos: int, table: Symbols)
    requires
        parse_expr(toks, pos, table) is Ok,
    ensures
        ({
            let e = parse_expr(toks, pos, table)->Ok_0.0;
            parse_expr(expr_tokens(e), 0, table) == Ok::<(Expr, int), ErrorKind>(
                (e, expr_tokens(e).len() as int),
            )
        }),
{
    let e = parse_expr(toks, pos, table)->Ok_0.0;
    lemma_parsed_tier(toks, pos, table, 0);
    let written = expr_tokens(e);
    assert(written.subrange(0, written.len() as int) =~= written);
    law_written_expression_reads_back(e, table, written, 0);
}

} // verus!
