//! What holds of every evaluation.

use vstd::prelude::*;
use crate::ast::{BinaryOp, Expr};
use crate::env::{bind, find, lemma_lookup_after_bind, lookup};
use crate::error_handler::ErrorKind;
use crate::interp::builtins::{arity_error, builtin_of, Builtin};
use crate::interp::semantics::{
    apply_builtin,
    bind_params,
    done,
    eval,
    eval_args,
    eval_arms,
    eval_block,
    eval_builtin,
    eval_cases,
    eval_loop,
    eval_short,
    fail,
    truth_of,
    value_of,
    Flow,
    State,
};
use crate::interp::variable_value::{number_of, Value};
use crate::number::SCALE;
use crate::types::Type;

verus! {

/// A name that is not declared is not found, whether it is read,
/// assigned to or deleted; the state stays as it was.
pub proof fn law_undeclared_name(st: State, name: Seq<char>, value: Expr, depth: nat, rounds: nat)
    requires
        find(st.vars, name) is None,
    ensures
        eval(st, Expr::VarRef(name), depth, rounds) == fail(st, ErrorKind::VariableNotFound(name)),
        eval(st, Expr::Assign(name, Box::new(value)), depth, rounds) == fail(
            st,
            ErrorKind::VariableNotFound(name),
        ),
        eval(st, Expr::Del(name), depth, rounds) == fail(st, ErrorKind::VariableNotFound(name)),
{
}

/// Division and remainder by a divisor that evaluates to zero fail with
/// `DivisionByZero`, whatever the dividend.
pub proof fn law_division_by_zero(st: State, lhs: Expr, rhs: Expr, depth: nat, rounds: nat)
    requires
        eval(st, lhs, depth, rounds).result matches Ok(Flow::Value(Value::Number(_))),
        eval(eval(st, lhs, depth, rounds).state, rhs, depth, rounds).result == Ok::<
            Flow,
            ErrorKind,
        >(Flow::Value(Value::Number(0))),
    ensures
        eval(st, Expr::Binary(BinaryOp::Div, Box::new(lhs), Box::new(rhs)), depth, rounds).result
            == Err::<Flow, ErrorKind>(ErrorKind::DivisionByZero),
        eval(st, Expr::Binary(BinaryOp::Mod, Box::new(lhs), Box::new(rhs)), depth, rounds).result
            == Err::<Flow, ErrorKind>(ErrorKind::DivisionByZero),
{
}

/// Where the condition of an `if` is not zero, the chain is its first
/// body: no `elif` arm and no `else` body has any part in it.
pub proof fn law_first_branch_only(
    st: State,
    cond: Expr,
    body: Seq<Expr>,
    elifs: Seq<(Expr, Seq<Expr>)>,
    otherwise: Option<Seq<Expr>>,
    depth: nat,
    rounds: nat,
)
    requires
        truth_of(eval(st, cond, depth, rounds).result) == Ok::<bool, ErrorKind>(true),
    ensures
        eval(st, Expr::IEE(Box::new(cond), body, elifs, otherwise), depth, rounds) == eval_block(
            eval(st, cond, depth, rounds).state,
            body,
            0,
            Flow::Nothing,
            depth,
            rounds,
        ),
{
}

/// Among the `elif` arms, the body of the first whose condition is not
/// zero is run, and the arms after it have no part in the result.
pub proof fn law_first_arm_only(
    st: State,
    arm: (Expr, Seq<Expr>),
    later: Seq<(Expr, Seq<Expr>)>,
    depth: nat,
    rounds: nat,
)
    requires
        truth_of(eval(st, arm.0, depth, rounds).result) == Ok::<bool, ErrorKind>(true),
    ensures
        eval_arms(st, seq![arm] + later, 0, depth, rounds) == eval_arms(
            st,
            seq![arm],
            0,
            depth,
            rounds,
        ),
{
    assert((seq![arm] + later)[0] == arm);
    assert(seq![arm][0] == arm);
}

/// A call of a declared function with another number of arguments than
/// it has parameters fails before any argument is evaluated: with
/// `TooManyArguments` or with `TooFewArguments`.
pub proof fn law_arity(st: State, name: Seq<char>, args: Seq<Expr>, depth: nat, rounds: nat)
    requires
        builtin_of(name) is None,
        lookup(st.funcs, name) is Some,
        args.len() != lookup(st.funcs, name)->0.params.len(),
    ensures
        eval(st, Expr::FuncCall(name, args), depth, rounds) == fail(
            st,
            if args.len() > lookup(st.funcs, name)->0.params.len() {
                ErrorKind::TooManyArguments(name)
            } else {
                ErrorKind::TooFewArguments(name)
            },
        ),
{
}

/// A call of a declared function when no further nesting is allowed
/// fails with `StackOverflow`.
pub proof fn law_depth_exhausted(st: State, name: Seq<char>, args: Seq<Expr>, rounds: nat)
    requires
        builtin_of(name) is None,
        lookup(st.funcs, name) is Some,
        args.len() == lookup(st.funcs, name)->0.params.len(),
    ensures
        eval(st, Expr::FuncCall(name, args), 0, rounds) == fail(st, ErrorKind::StackOverflow),
{
}

/// A function that does nothing but call itself ends in `StackOverflow`
/// whatever depth it starts from.
pub proof fn law_endless_recursion(st: State, name: Seq<char>, depth: nat, rounds: nat)
    requires
        builtin_of(name) is None,
        lookup(st.funcs, name) is Some,
        lookup(st.funcs, name)->0.params.len() == 0,
        lookup(st.funcs, name)->0.body == seq![
            Expr::Return(Box::new(Expr::FuncCall(name, Seq::empty()))),
        ],
    ensures
        eval(st, Expr::FuncCall(name, Seq::empty()), depth, rounds) == fail(
            st,
            ErrorKind::StackOverflow,
        ),
    decreases depth,
{
    let f = lookup(st.funcs, name)->0;
    let call = Expr::FuncCall(name, Seq::empty());
    if depth > 0 {
        let a = eval_args(st, Seq::empty(), 0, Seq::empty(), depth, rounds);
        assert(a.state == st);
        assert(bind_params(st.vars, f.params, Seq::empty(), 0) == st.vars);
        let callee = State { vars: st.vars, ..st };
        assert(callee == st);
        law_endless_recursion(st, name, (depth - 1) as nat, rounds);
        let inner = eval(st, call, (depth - 1) as nat, rounds);
        assert(inner == fail(st, ErrorKind::StackOverflow));
        let ret = eval(st, f.body[0], (depth - 1) as nat, rounds);
        assert(ret == fail(st, ErrorKind::StackOverflow));
        let block = eval_block(st, f.body, 0, Flow::Nothing, (depth - 1) as nat, rounds);
        assert(block == fail(st, ErrorKind::StackOverflow));
        assert(State { output: st.output, ..st } == st);
    }
}

/// A variable declared with a whole number holds that number as a
/// number with a fraction, and reads back as it.
pub proof fn law_declared_value_reads_back(
    st: State,
    name: Seq<char>,
    typ: Type,
    i: int,
    depth: nat,
    rounds: nat,
)
    requires
        find(st.vars, name) is None,
    ensures
        ({
            let whole = eval(st, Expr::Let(name, typ, Box::new(Expr::Int(i))), depth, rounds);
            let promoted = eval(
                st,
                Expr::Let(name, typ, Box::new(Expr::Float(i * SCALE))),
                depth,
                rounds,
            );
            &&& whole == promoted
            &&& whole.result == Ok::<Flow, ErrorKind>(Flow::Nothing)
            &&& eval(whole.state, Expr::VarRef(name), depth, rounds) == done(
                whole.state,
                Flow::Value(Value::Number(i * SCALE)),
            )
        }),
{
    let v = Value::Number(i * SCALE);
    lemma_lookup_after_bind(st.vars, name, v);
    assert(eval(st, Expr::Int(i), depth, rounds) == done(st, Flow::Value(v)));
    assert(eval(st, Expr::Float(i * SCALE), depth, rounds) == done(st, Flow::Value(v)));
    let after = State { vars: bind(st.vars, name, v), ..st };
    assert(eval(st, Expr::Let(name, typ, Box::new(Expr::Int(i))), depth, rounds) == done(
        after,
        Flow::Nothing,
    ));
    assert(eval(st, Expr::Let(name, typ, Box::new(Expr::Float(i * SCALE))), depth, rounds)
        == done(after, Flow::Nothing));
    assert(lookup(after.vars, name) == Some(v));
}

/// Whether the lines `later` are the lines `earlier` with more lines
/// after them.
pub open spec fn grown(earlier: Seq<Seq<char>>, later: Seq<Seq<char>>) -> bool {
    earlier.len() <= later.len() && later.subrange(0, earlier.len() as int) == earlier
}

/// Lines that have grown twice have grown.
proof fn lemma_grown_twice(a: Seq<Seq<char>>, b: Seq<Seq<char>>, c: Seq<Seq<char>>)
    requires
        grown(a, b),
        grown(b, c),
    ensures
        grown(a, c),
{
    assert(c.subrange(0, a.len() as int) =~= c.subrange(0, b.len() as int).subrange(
        0,
        a.len() as int,
    ));
}

/// Lines have grown from themselves.
proof fn lemma_grown_same(a: Seq<Seq<char>>)
    ensures
        grown(a, a),
{
    assert(a.subrange(0, a.len() as int) =~= a);
}

/// The output is only ever added to: whatever a node does, and whether
/// it fails or not, the lines printed before it are still there after
/// it, in their order.
pub proof fn law_output_only_grows(st: State, e: Expr, depth: nat, rounds: nat)
    ensures
        grown(st.output, eval(st, e, depth, rounds).state.output),
    decreases depth, e, 1nat, 0nat,
{
    lemma_grown_same(st.output);
    match e {
        Expr::Let(_, _, init) => {
            law_output_only_grows(st, *init, depth, rounds);
        },
        Expr::Assign(_, value) => {
            law_output_only_grows(st, *value, depth, rounds);
        },
        Expr::Binary(_, lhs, rhs) => {
            law_output_only_grows(st, *lhs, depth, rounds);
            let s1 = eval(st, *lhs, depth, rounds);
            law_output_only_grows(s1.state, *rhs, depth, rounds);
            let s2 = eval(s1.state, *rhs, depth, rounds);
            lemma_grown_twice(st.output, s1.state.output, s2.state.output);
        },
        Expr::Unary(_, operand) => {
            law_output_only_grows(st, *operand, depth, rounds);
        },
        Expr::IEE(cond, body, elifs, otherwise) => {
            law_output_only_grows(st, *cond, depth, rounds);
            let s1 = eval(st, *cond, depth, rounds);
            lemma_block_output(s1.state, body, 0, Flow::Nothing, depth, rounds);
            let b = eval_block(s1.state, body, 0, Flow::Nothing, depth, rounds);
            lemma_grown_twice(st.output, s1.state.output, b.state.output);
            lemma_arms_output(s1.state, elifs, 0, depth, rounds);
            let arms = eval_arms(s1.state, elifs, 0, depth, rounds);
            lemma_grown_twice(st.output, s1.state.output, arms.state.output);
            match otherwise {
                Some(o) => {
                    lemma_block_output(arms.state, o, 0, Flow::Nothing, depth, rounds);
                    let last = eval_block(arms.state, o, 0, Flow::Nothing, depth, rounds);
                    lemma_grown_twice(st.output, arms.state.output, last.state.output);
                },
                None => {},
            }
        },
        Expr::Switch(subject, cases, default) => {
            law_output_only_grows(st, *subject, depth, rounds);
            let s1 = eval(st, *subject, depth, rounds);
            match value_of(s1.result) {
                Ok(v) => match number_of(v) {
                    Ok(n) => {
                        lemma_cases_output(s1.state, n, cases, 0, depth, rounds);
                        let arms = eval_cases(s1.state, n, cases, 0, depth, rounds);
                        lemma_grown_twice(st.output, s1.state.output, arms.state.output);
                        match default {
                            Some(o) => {
                                lemma_block_output(arms.state, o, 0, Flow::Nothing, depth, rounds);
                                let last = eval_block(
                                    arms.state,
                                    o,
                                    0,
                                    Flow::Nothing,
                                    depth,
                                    rounds,
                                );
                                lemma_grown_twice(
                                    st.output,
                                    arms.state.output,
                                    last.state.output,
                                );
                            },
                            None => {},
                        }
                    },
                    Err(_) => {},
                },
                Err(_) => {},
            }
        },
        Expr::For(_, _, _, _) => {
            lemma_loop_output(st, e, rounds, depth, rounds);
        },
        Expr::While(_, _) => {
            lemma_loop_output(st, e, rounds, depth, rounds);
        },
        Expr::FuncCall(name, args) => {
            match builtin_of(name) {
                Some(b) => {
                    lemma_builtin_output(st, b, name, args, depth, rounds);
                },
                None => {
                    match lookup(st.funcs, name) {
                        Some(f) => {
                            if args.len() == f.params.len() && depth > 0 {
                                lemma_args_output(st, args, 0, Seq::empty(), depth, rounds);
                                let a = eval_args(st, args, 0, Seq::empty(), depth, rounds);
                                match a.values {
                                    Ok(values) => {
                                        let callee = State {
                                            vars: bind_params(a.state.vars, f.params, values, 0),
                                            ..a.state
                                        };
                                        lemma_block_output(
                                            callee,
                                            f.body,
                                            0,
                                            Flow::Nothing,
                                            (depth - 1) as nat,
                                            rounds,
                                        );
                                        let r = eval_block(
                                            callee,
                                            f.body,
                                            0,
                                            Flow::Nothing,
                                            (depth - 1) as nat,
                                            rounds,
                                        );
                                        lemma_grown_twice(
                                            st.output,
                                            a.state.output,
                                            r.state.output,
                                        );
                                    },
                                    Err(_) => {},
                                }
                            }
                        },
                        None => {},
                    }
                },
            }
        },
        Expr::Return(value) => {
            law_output_only_grows(st, *value, depth, rounds);
        },
        _ => {},
    }
}

/// The statements of a body only add to the output.
proof fn lemma_block_output(
    st: State,
    body: Seq<Expr>,
    from: int,
    last: Flow,
    depth: nat,
    rounds: nat,
)
    ensures
        grown(st.output, eval_block(st, body, from, last, depth, rounds).state.output),
    decreases depth, body, 0nat, body.len() - from,
{
    lemma_grown_same(st.output);
    if 0 <= from < body.len() {
        law_output_only_grows(st, body[from], depth, rounds);
        let s = eval(st, body[from], depth, rounds);
        match s.result {
            Ok(Flow::Return(_)) => {},
            Ok(flow) => {
                lemma_block_output(s.state, body, from + 1, flow, depth, rounds);
                lemma_grown_twice(
                    st.output,
                    s.state.output,
                    eval_block(s.state, body, from + 1, flow, depth, rounds).state.output,
                );
            },
            Err(_) => {},
        }
    }
}

/// The arguments of a call only add to the output.
proof fn lemma_args_output(
    st: State,
    args: Seq<Expr>,
    from: int,
    before: Seq<Value>,
    depth: nat,
    rounds: nat,
)
    ensures
        grown(st.output, eval_args(st, args, from, before, depth, rounds).state.output),
    decreases depth, args, 0nat, args.len() - from,
{
    lemma_grown_same(st.output);
    if 0 <= from < args.len() {
        law_output_only_grows(st, args[from], depth, rounds);
        let s = eval(st, args[from], depth, rounds);
        match value_of(s.result) {
            Ok(v) => {
                lemma_args_output(s.state, args, from + 1, before.push(v), depth, rounds);
                lemma_grown_twice(
                    st.output,
                    s.state.output,
                    eval_args(s.state, args, from + 1, before.push(v), depth, rounds).state.output,
                );
            },
            Err(_) => {},
        }
    }
}

/// The arms of a chain only add to the output.
proof fn lemma_arms_output(
    st: State,
    arms: Seq<(Expr, Seq<Expr>)>,
    from: int,
    depth: nat,
    rounds: nat,
)
    ensures
        grown(st.output, eval_arms(st, arms, from, depth, rounds).state.output),
    decreases depth, arms, 0nat, arms.len() - from,
{
    lemma_grown_same(st.output);
    if 0 <= from < arms.len() {
        law_output_only_grows(st, arms[from].0, depth, rounds);
        let s = eval(st, arms[from].0, depth, rounds);
        match truth_of(s.result) {
            Ok(true) => {
                lemma_block_output(s.state, arms[from].1, 0, Flow::Nothing, depth, rounds);
                lemma_grown_twice(
                    st.output,
                    s.state.output,
                    eval_block(s.state, arms[from].1, 0, Flow::Nothing, depth, rounds).state.output,
                );
            },
            Ok(false) => {
                lemma_arms_output(s.state, arms, from + 1, depth, rounds);
                lemma_grown_twice(
                    st.output,
                    s.state.output,
                    eval_arms(s.state, arms, from + 1, depth, rounds).state.output,
                );
            },
            Err(_) => {},
        }
    }
}

/// The cases of a `switch` only add to the output.
proof fn lemma_cases_output(
    st: State,
    subject: int,
    cases: Seq<(Expr, Seq<Expr>)>,
    from: int,
    depth: nat,
    rounds: nat,
)
    ensures
        grown(st.output, eval_cases(st, subject, cases, from, depth, rounds).state.output),
    decreases depth, cases, 0nat, cases.len() - from,
{
    lemma_grown_same(st.output);
    if 0 <= from < cases.len() {
        law_output_only_grows(st, cases[from].0, depth, rounds);
        let s = eval(st, cases[from].0, depth, rounds);
        match value_of(s.result) {
            Ok(v) => match number_of(v) {
                Ok(n) => {
                    if n == subject {
                        lemma_block_output(s.state, cases[from].1, 0, Flow::Nothing, depth, rounds);
                        lemma_grown_twice(
                            st.output,
                            s.state.output,
                            eval_block(
                                s.state,
                                cases[from].1,
                                0,
                                Flow::Nothing,
                                depth,
                                rounds,
                            ).state.output,
                        );
                    } else {
                        lemma_cases_output(s.state, subject, cases, from + 1, depth, rounds);
                        lemma_grown_twice(
                            st.output,
                            s.state.output,
                            eval_cases(s.state, subject, cases, from + 1, depth, rounds).state.output,
                        );
                    }
                },
                Err(_) => {},
            },
            Err(_) => {},
        }
    }
}

/// A loop only adds to the output.
proof fn lemma_loop_output(st: State, e: Expr, left: nat, depth: nat, rounds: nat)
    ensures
        grown(st.output, eval_loop(st, e, left, depth, rounds).state.output),
    decreases depth, e, 0nat, left,
{
    lemma_grown_same(st.output);
    match e {
        Expr::While(cond, body) => {
            law_output_only_grows(st, *cond, depth, rounds);
            let s1 = eval(st, *cond, depth, rounds);
            if truth_of(s1.result) == Ok::<bool, ErrorKind>(true) && left > 0 {
                lemma_block_output(s1.state, body, 0, Flow::Nothing, depth, rounds);
                let s2 = eval_block(s1.state, body, 0, Flow::Nothing, depth, rounds);
                lemma_grown_twice(st.output, s1.state.output, s2.state.output);
                lemma_loop_output(s2.state, e, (left - 1) as nat, depth, rounds);
                lemma_grown_twice(
                    st.output,
                    s2.state.output,
                    eval_loop(s2.state, e, (left - 1) as nat, depth, rounds).state.output,
                );
            }
        },
        Expr::For(_, cond, step, body) => {
            law_output_only_grows(st, *cond, depth, rounds);
            let s1 = eval(st, *cond, depth, rounds);
            if truth_of(s1.result) == Ok::<bool, ErrorKind>(true) && left > 0 {
                lemma_block_output(s1.state, body, 0, Flow::Nothing, depth, rounds);
                let s2 = eval_block(s1.state, body, 0, Flow::Nothing, depth, rounds);
                lemma_grown_twice(st.output, s1.state.output, s2.state.output);
                law_output_only_grows(s2.state, *step, depth, rounds);
                let s3 = eval(s2.state, *step, depth, rounds);
                lemma_grown_twice(st.output, s2.state.output, s3.state.output);
                lemma_loop_output(s3.state, e, (left - 1) as nat, depth, rounds);
                lemma_grown_twice(
                    st.output,
                    s3.state.output,
                    eval_loop(s3.state, e, (left - 1) as nat, depth, rounds).state.output,
                );
            }
        },
        _ => {},
    }
}

/// A call of a built-in function only adds to the output.
proof fn lemma_builtin_output(
    st: State,
    b: Builtin,
    name: Seq<char>,
    args: Seq<Expr>,
    depth: nat,
    rounds: nat,
)
    ensures
        grown(st.output, eval_builtin(st, b, name, args, depth, rounds).state.output),
    decreases depth, args, 1nat, 0nat,
{
    lemma_grown_same(st.output);
    if arity_error(b, name, args.len()) is None {
        if b == Builtin::And {
            lemma_short_output(st, args, 0, true, depth, rounds);
        } else if b == Builtin::Or {
            lemma_short_output(st, args, 0, false, depth, rounds);
        } else {
            lemma_args_output(st, args, 0, Seq::empty(), depth, rounds);
            let a = eval_args(st, args, 0, Seq::empty(), depth, rounds);
            match a.values {
                Ok(values) => {
                    let after = apply_builtin(a.state, b, values).state.output;
                    assert(grown(a.state.output, after)) by {
                        lemma_grown_same(a.state.output);
                        assert(after.subrange(0, a.state.output.len() as int)
                            =~= a.state.output);
                    }
                    lemma_grown_twice(st.output, a.state.output, after);
                },
                Err(_) => {},
            }
        }
    }
}

/// The operands of `and` and `or` only add to the output.
proof fn lemma_short_output(
    st: State,
    args: Seq<Expr>,
    from: int,
    conj: bool,
    depth: nat,
    rounds: nat,
)
    ensures
        grown(st.output, eval_short(st, args, from, conj, depth, rounds).state.output),
    decreases depth, args, 0nat, args.len() - from,
{
    lemma_grown_same(st.output);
    if 0 <= from < args.len() {
        law_output_only_grows(st, args[from], depth, rounds);
        let s = eval(st, args[from], depth, rounds);
        match truth_of(s.result) {
            Ok(t) => {
                if t == conj {
                    lemma_short_output(s.state, args, from + 1, conj, depth, rounds);
                    lemma_grown_twice(
                        st.output,
                        s.state.output,
                        eval_short(s.state, args, from + 1, conj, depth, rounds).state.output,
                    );
                }
            },
            Err(_) => {},
        }
    }
}

/// What a call of a declared function does to its own variables and
/// functions stays in the call: the caller has, after the call, the
/// variables and the functions that it had once the arguments had their
/// values.
pub proof fn law_calls_are_isolated(
    st: State,
    name: Seq<char>,
    args: Seq<Expr>,
    depth: nat,
    rounds: nat,
)
    requires
        builtin_of(name) is None,
        lookup(st.funcs, name) is Some,
        args.len() == lookup(st.funcs, name)->0.params.len(),
        depth > 0,
    ensures
        ({
            let a = eval_args(st, args, 0, Seq::empty(), depth, rounds);
            let r = eval(st, Expr::FuncCall(name, args), depth, rounds);
            r.state.vars == a.state.vars && r.state.funcs == a.state.funcs
        }),
{
}

} // verus!
