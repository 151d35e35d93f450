//! What a program means: the state that it changes, and the evaluation
//! of every kind of node as a function from state to state and result.

use vstd::prelude::*;
use crate::ast::{BinaryOp, Expr, UnaryOp};
use crate::env::{bind, find, lookup, unbind};
use crate::error_handler::ErrorKind;
use crate::function::FunctionModel;
use crate::interp::builtins::{
    arity_error,
    builtin_of,
    builtin_value,
    exit_code,
    spaced,
    Builtin,
};
use crate::interp::variable_value::{number_of, value_text, Value};
use crate::number::{
    checked,
    power_units,
    product_units,
    quotient_units,
    trunc_div,
    trunc_rem,
    SCALE,
};

verus! {

/// Everything that a running program can change: the variables, the
/// functions and the lines printed so far.
pub struct State {
    pub vars: Seq<(Seq<char>, Value)>,
    pub funcs: Seq<(Seq<char>, FunctionModel)>,
    pub output: Seq<Seq<char>>,
}

/// How the evaluation of a node ends when it does not fail: with
/// nothing, with a value, or with a value on its way out of a function.
pub enum Flow {
    Nothing,
    Value(Value),
    Return(Value),
}

/// The state after an evaluation, and how it ended.
pub struct Step {
    pub state: State,
    pub result: Result<Flow, ErrorKind>,
}

/// The state after a list of arguments has been evaluated, and their
/// values.
pub struct ArgsStep {
    pub state: State,
    pub values: Result<Seq<Value>, ErrorKind>,
}

/// The state after the conditions of a chain have been tried, and the
/// end of the body that was taken, if any.
pub struct ArmsStep {
    pub state: State,
    pub taken: Option<Result<Flow, ErrorKind>>,
}

/// An evaluation that ended without failing.
pub open spec fn done(state: State, flow: Flow) -> Step {
    Step { state, result: Ok(flow) }
}

/// An evaluation that failed.
pub open spec fn fail(state: State, error: ErrorKind) -> Step {
    Step { state, result: Err(error) }
}

/// The number that stands for a truth value.
pub open spec fn truth(b: bool) -> Value {
    if b {
        Value::Number(SCALE as int)
    } else {
        Value::Number(0)
    }
}

/// The value that an evaluation gave; one that gave none is an error.
pub open spec fn value_of(result: Result<Flow, ErrorKind>) -> Result<Value, ErrorKind> {
    match result {
        Ok(Flow::Value(v)) => Ok(v),
        Ok(_) => Err(ErrorKind::SyntaxError("Expected a value"@)),
        Err(e) => Err(e),
    }
}

/// Whether an evaluation gave a number other than zero.
pub open spec fn truth_of(result: Result<Flow, ErrorKind>) -> Result<bool, ErrorKind> {
    match value_of(result) {
        Ok(v) => match number_of(v) {
            Ok(n) => Ok(n != 0),
            Err(e) => Err(e),
        },
        Err(e) => Err(e),
    }
}

/// A number in range, or the error for one that is not.
pub open spec fn ranged(units: int) -> Result<Value, ErrorKind> {
    match checked(units) {
        Some(u) => Ok(Value::Number(u)),
        None => Err(ErrorKind::NumberOutOfRange),
    }
}

/// A number raised to a number: the exponent is whole; a negative
/// exponent gives the reciprocal of the positive power.
pub open spec fn raised(base: int, exp: int) -> Result<Value, ErrorKind> {
    if trunc_rem(exp, SCALE as int) != 0 {
        Err(ErrorKind::SyntaxError("Exponent is not a whole number"@))
    } else {
        let k = trunc_div(exp, SCALE as int);
        if k >= 0 {
            match power_units(base, k as nat) {
                Some(p) => Ok(Value::Number(p)),
                None => Err(ErrorKind::NumberOutOfRange),
            }
        } else {
            match power_units(base, (-k) as nat) {
                Some(p) => if p == 0 {
                    Err(ErrorKind::DivisionByZero)
                } else {
                    ranged(quotient_units(SCALE as int, p))
                },
                None => Err(ErrorKind::NumberOutOfRange),
            }
        }
    }
}

/// What an operator makes of two numbers.
pub open spec fn arithmetic(op: BinaryOp, x: int, y: int) -> Result<Value, ErrorKind> {
    match op {
        BinaryOp::Add => ranged(x + y),
        BinaryOp::Sub => ranged(x - y),
        BinaryOp::Mul => ranged(product_units(x, y)),
        BinaryOp::Div => if y == 0 {
            Err(ErrorKind::DivisionByZero)
        } else {
            ranged(quotient_units(x, y))
        },
        BinaryOp::Mod => if y == 0 {
            Err(ErrorKind::DivisionByZero)
        } else {
            Ok(Value::Number(trunc_rem(x, y)))
        },
        BinaryOp::Pow => raised(x, y),
        BinaryOp::Eq => Ok(truth(x == y)),
        BinaryOp::Ne => Ok(truth(x != y)),
        BinaryOp::Lt => Ok(truth(x < y)),
        BinaryOp::Gt => Ok(truth(x > y)),
        BinaryOp::Lte => Ok(truth(x <= y)),
        BinaryOp::Gte => Ok(truth(x >= y)),
    }
}

/// What an operator makes of two values. Equality compares two numbers
/// or two texts and refuses a number beside a text; every other
/// operator takes numbers.
pub open spec fn apply_binary(op: BinaryOp, a: Value, b: Value) -> Result<Value, ErrorKind> {
    match (a, b) {
        (Value::Number(x), Value::Number(y)) => arithmetic(op, x, y),
        (Value::Text(x), Value::Text(y)) => match op {
            BinaryOp::Eq => Ok(truth(x == y)),
            BinaryOp::Ne => Ok(truth(x != y)),
            _ => Err(ErrorKind::ParseError("Expected a number"@)),
        },
        _ => match op {
            BinaryOp::Eq => Err(ErrorKind::SyntaxError("Cannot compare a number with a text"@)),
            BinaryOp::Ne => Err(ErrorKind::SyntaxError("Cannot compare a number with a text"@)),
            _ => Err(ErrorKind::ParseError("Expected a number"@)),
        },
    }
}

/// What an operator makes of one value.
pub open spec fn apply_unary(op: UnaryOp, a: Value) -> Result<Value, ErrorKind> {
    match number_of(a) {
        Ok(x) => match op {
            UnaryOp::Neg => Ok(Value::Number(-x)),
            UnaryOp::Not => Ok(truth(x == 0)),
        },
        Err(e) => Err(e),
    }
}

/// The variables of a call: the caller's, with each parameter bound to
/// its argument, in order.
pub open spec fn bind_params(
    vars: Seq<(Seq<char>, Value)>,
    params: Seq<(Seq<char>, crate::types::Type)>,
    values: Seq<Value>,
    from: int,
) -> Seq<(Seq<char>, Value)>
    decreases params.len() - from,
{
    if 0 <= from < params.len() && from < values.len() {
        bind_params(bind(vars, params[from].0, values[from]), params, values, from + 1)
    } else {
        vars
    }
}

/// What a call gives back to its caller: a returned value arrives as a
/// plain value.
pub open spec fn call_result(flow: Flow) -> Flow {
    match flow {
        Flow::Return(v) => Flow::Value(v),
        f => f,
    }
}

/// One line for each variable, `name: value`, then the name of each
/// function.
pub open spec fn debug_lines(st: State) -> Seq<Seq<char>> {
    Seq::new(st.vars.len(), |i: int| st.vars[i].0 + ": "@ + value_text(st.vars[i].1)) + Seq::new(
        st.funcs.len(),
        |i: int| st.funcs[i].0,
    )
}

/// What a built-in function does once its arguments have their values:
/// `print` adds a line to the output, `debug` adds the tables, `exit`
/// ends the run, and every other one gives a value.
pub open spec fn apply_builtin(st: State, b: Builtin, values: Seq<Value>) -> Step {
    match b {
        Builtin::Print => done(
            State { output: st.output.push(spaced(values)), ..st },
            Flow::Nothing,
        ),
        Builtin::Debug => done(
            State { output: st.output + debug_lines(st), ..st },
            Flow::Nothing,
        ),
        Builtin::Exit => match number_of(values[0]) {
            Ok(n) => fail(st, ErrorKind::ExitRequested(exit_code(n))),
            Err(err) => fail(st, err),
        },
        _ => match builtin_value(b, values) {
            Ok(v) => done(st, Flow::Value(v)),
            Err(err) => fail(st, err),
        },
    }
}

/// The evaluation of one node. `depth` is how many nested calls are
/// still allowed, `rounds` how many rounds a loop may run.
pub open spec fn eval(st: State, e: Expr, depth: nat, rounds: nat) -> Step
    decreases depth, e, 1nat, 0nat,
{
    match e {
        Expr::Int(i) => done(st, Flow::Value(Value::Number(i * SCALE))),
        Expr::Float(u) => done(st, Flow::Value(Value::Number(u))),
        Expr::Str(s) => done(st, Flow::Value(Value::Text(s))),
        Expr::Boolean(b) => done(st, Flow::Value(truth(b))),
        Expr::VarRef(name) => match lookup(st.vars, name) {
            Some(v) => done(st, Flow::Value(v)),
            None => fail(st, ErrorKind::VariableNotFound(name)),
        },
        Expr::Let(name, _, init) => {
            let s1 = eval(st, *init, depth, rounds);
            match value_of(s1.result) {
                Err(err) => fail(s1.state, err),
                Ok(v) => if find(s1.state.vars, name) is Some {
                    fail(s1.state, ErrorKind::VariableAlreadyExists(name))
                } else {
                    done(State { vars: bind(s1.state.vars, name, v), ..s1.state }, Flow::Nothing)
                },
            }
        },
        Expr::Assign(name, value) => if find(st.vars, name) is None {
            fail(st, ErrorKind::VariableNotFound(name))
        } else {
            let s1 = eval(st, *value, depth, rounds);
            match value_of(s1.result) {
                Err(err) => fail(s1.state, err),
                Ok(v) => done(
                    State { vars: bind(s1.state.vars, name, v), ..s1.state },
                    Flow::Nothing,
                ),
            }
        },
        Expr::Del(name) => if find(st.vars, name) is None {
            fail(st, ErrorKind::VariableNotFound(name))
        } else {
            done(State { vars: unbind(st.vars, name), ..st }, Flow::Nothing)
        },
        Expr::Binary(op, lhs, rhs) => {
            let s1 = eval(st, *lhs, depth, rounds);
            match value_of(s1.result) {
                Err(err) => fail(s1.state, err),
                Ok(a) => {
                    let s2 = eval(s1.state, *rhs, depth, rounds);
                    match value_of(s2.result) {
                        Err(err) => fail(s2.state, err),
                        Ok(b) => match apply_binary(op, a, b) {
                            Ok(v) => done(s2.state, Flow::Value(v)),
                            Err(err) => fail(s2.state, err),
                        },
                    }
                },
            }
        },
        Expr::Unary(op, operand) => {
            let s1 = eval(st, *operand, depth, rounds);
            match value_of(s1.result) {
                Err(err) => fail(s1.state, err),
                Ok(a) => match apply_unary(op, a) {
                    Ok(v) => done(s1.state, Flow::Value(v)),
                    Err(err) => fail(s1.state, err),
                },
            }
        },
        Expr::IEE(cond, body, elifs, otherwise) => {
            let s1 = eval(st, *cond, depth, rounds);
            match truth_of(s1.result) {
                Err(err) => fail(s1.state, err),
                Ok(true) => eval_block(s1.state, body, 0, Flow::Nothing, depth, rounds),
                Ok(false) => {
                    let arms = eval_arms(s1.state, elifs, 0, depth, rounds);
                    match arms.taken {
                        Some(result) => Step { state: arms.state, result },
                        None => match otherwise {
                            Some(b) => eval_block(arms.state, b, 0, Flow::Nothing, depth, rounds),
                            None => done(arms.state, Flow::Nothing),
                        },
                    }
                },
            }
        },
        Expr::Switch(subject, cases, default) => {
            let s1 = eval(st, *subject, depth, rounds);
            match value_of(s1.result) {
                Err(err) => fail(s1.state, err),
                Ok(v) => match number_of(v) {
                    Err(err) => fail(s1.state, err),
                    Ok(n) => {
                        let arms = eval_cases(s1.state, n, cases, 0, depth, rounds);
                        match arms.taken {
                            Some(result) => Step { state: arms.state, result },
                            None => match default {
                                Some(b) => eval_block(
                                    arms.state,
                                    b,
                                    0,
                                    Flow::Nothing,
                                    depth,
                                    rounds,
                                ),
                                None => done(arms.state, Flow::Nothing),
                            },
                        }
                    },
                },
            }
        },
        Expr::For(var, _, _, _) => if find(st.vars, var) is None {
            fail(st, ErrorKind::VariableNotFound(var))
        } else {
            eval_loop(st, e, rounds, depth, rounds)
        },
        Expr::While(_, _) => eval_loop(st, e, rounds, depth, rounds),
        Expr::FuncDef(name, params, ret, body) => done(
            State {
                funcs: bind(
                    st.funcs,
                    name,
                    FunctionModel { name, params, body, return_type: ret },
                ),
                ..st
            },
            Flow::Nothing,
        ),
        Expr::FuncCall(name, args) => if let Some(b) = builtin_of(name) {
            eval_builtin(st, b, name, args, depth, rounds)
        } else {
            match lookup(st.funcs, name) {
                None => fail(st, ErrorKind::FunctionNotFound(name)),
                Some(f) => if args.len() > f.params.len() {
                    fail(st, ErrorKind::TooManyArguments(name))
                } else if args.len() < f.params.len() {
                    fail(st, ErrorKind::TooFewArguments(name))
                } else if depth == 0 {
                    fail(st, ErrorKind::StackOverflow)
                } else {
                    let a = eval_args(st, args, 0, Seq::empty(), depth, rounds);
                    match a.values {
                        Err(err) => fail(a.state, err),
                        Ok(values) => {
                            let callee = State {
                                vars: bind_params(a.state.vars, f.params, values, 0),
                                ..a.state
                            };
                            let r = eval_block(
                                callee,
                                f.body,
                                0,
                                Flow::Nothing,
                                (depth - 1) as nat,
                                rounds,
                            );
                            let after = State { output: r.state.output, ..a.state };
                            match r.result {
                                Err(err) => fail(after, err),
                                Ok(flow) => done(after, call_result(flow)),
                            }
                        },
                    }
                },
            }
        },
        Expr::Return(value) => {
            let s1 = eval(st, *value, depth, rounds);
            match value_of(s1.result) {
                Err(err) => fail(s1.state, err),
                Ok(v) => done(s1.state, Flow::Return(v)),
            }
        },
    }
}

/// The statements of a body from `from` on, in order. A failure or a
/// `return` ends the body; otherwise the body ends as its last
/// statement did, and `last` stands for the statement before `from`.
pub open spec fn eval_block(
    st: State,
    body: Seq<Expr>,
    from: int,
    last: Flow,
    depth: nat,
    rounds: nat,
) -> Step
    decreases depth, body, 0nat, body.len() - from,
{
    if 0 <= from < body.len() {
        let s = eval(st, body[from], depth, rounds);
        match s.result {
            Err(_) => s,
            Ok(Flow::Return(_)) => s,
            Ok(flow) => eval_block(s.state, body, from + 1, flow, depth, rounds),
        }
    } else {
        done(st, last)
    }
}

/// The arguments of a call from `from` on, left to right; `before`
/// holds the values of those before `from`.
pub open spec fn eval_args(
    st: State,
    args: Seq<Expr>,
    from: int,
    before: Seq<Value>,
    depth: nat,
    rounds: nat,
) -> ArgsStep
    decreases depth, args, 0nat, args.len() - from,
{
    if 0 <= from < args.len() {
        let s = eval(st, args[from], depth, rounds);
        match value_of(s.result) {
            Err(err) => ArgsStep { state: s.state, values: Err(err) },
            Ok(v) => eval_args(s.state, args, from + 1, before.push(v), depth, rounds),
        }
    } else {
        ArgsStep { state: st, values: Ok(before) }
    }
}

/// The `elif` arms from `from` on: the body of the first arm whose
/// condition is not zero is run, and no later condition is evaluated.
pub open spec fn eval_arms(
    st: State,
    arms: Seq<(Expr, Seq<Expr>)>,
    from: int,
    depth: nat,
    rounds: nat,
) -> ArmsStep
    decreases depth, arms, 0nat, arms.len() - from,
{
    if 0 <= from < arms.len() {
        let s = eval(st, arms[from].0, depth, rounds);
        match truth_of(s.result) {
            Err(err) => ArmsStep { state: s.state, taken: Some(Err(err)) },
            Ok(true) => {
                let b = eval_block(s.state, arms[from].1, 0, Flow::Nothing, depth, rounds);
                ArmsStep { state: b.state, taken: Some(b.result) }
            },
            Ok(false) => eval_arms(s.state, arms, from + 1, depth, rounds),
        }
    } else {
        ArmsStep { state: st, taken: None }
    }
}

/// The cases of a `switch` from `from` on: the body of the first case
/// whose value equals `subject` is run.
pub open spec fn eval_cases(
    st: State,
    subject: int,
    cases: Seq<(Expr, Seq<Expr>)>,
    from: int,
    depth: nat,
    rounds: nat,
) -> ArmsStep
    decreases depth, cases, 0nat, cases.len() - from,
{
    if 0 <= from < cases.len() {
        let s = eval(st, cases[from].0, depth, rounds);
        match value_of(s.result) {
            Err(err) => ArmsStep { state: s.state, taken: Some(Err(err)) },
            Ok(v) => match number_of(v) {
                Err(err) => ArmsStep { state: s.state, taken: Some(Err(err)) },
                Ok(n) => if n == subject {
                    let b = eval_block(s.state, cases[from].1, 0, Flow::Nothing, depth, rounds);
                    ArmsStep { state: b.state, taken: Some(b.result) }
                } else {
                    eval_cases(s.state, subject, cases, from + 1, depth, rounds)
                },
            },
        }
    } else {
        ArmsStep { state: st, taken: None }
    }
}

/// A `while` or `for` loop that may still run `left` rounds. Before each
/// round the condition is evaluated; a `for` loop evaluates its step
/// after the body.
pub open spec fn eval_loop(st: State, e: Expr, left: nat, depth: nat, rounds: nat) -> Step
    decreases depth, e, 0nat, left,
{
    match e {
        Expr::While(cond, body) => {
            let s1 = eval(st, *cond, depth, rounds);
            match truth_of(s1.result) {
                Err(err) => fail(s1.state, err),
                Ok(false) => done(s1.state, Flow::Nothing),
                Ok(true) => if left == 0 {
                    fail(s1.state, ErrorKind::LoopLimitExceeded)
                } else {
                    let s2 = eval_block(s1.state, body, 0, Flow::Nothing, depth, rounds);
                    match s2.result {
                        Err(_) => s2,
                        Ok(Flow::Return(_)) => s2,
                        Ok(_) => eval_loop(s2.state, e, (left - 1) as nat, depth, rounds),
                    }
                },
            }
        },
        Expr::For(_, cond, step, body) => {
            let s1 = eval(st, *cond, depth, rounds);
            match truth_of(s1.result) {
                Err(err) => fail(s1.state, err),
                Ok(false) => done(s1.state, Flow::Nothing),
                Ok(true) => if left == 0 {
                    fail(s1.state, ErrorKind::LoopLimitExceeded)
                } else {
                    let s2 = eval_block(s1.state, body, 0, Flow::Nothing, depth, rounds);
                    match s2.result {
                        Err(_) => s2,
                        Ok(Flow::Return(_)) => s2,
                        Ok(_) => {
                            let s3 = eval(s2.state, *step, depth, rounds);
                            match s3.result {
                                Err(_) => s3,
                                Ok(Flow::Return(_)) => s3,
                                Ok(_) => eval_loop(s3.state, e, (left - 1) as nat, depth, rounds),
                            }
                        },
                    }
                },
            }
        },
        _ => done(st, Flow::Nothing),
    }
}

/// A call of a built-in function. `and` and `or` stop at the first
/// argument that decides them; every other built-in has all its
/// arguments evaluated first.
pub open spec fn eval_builtin(
    st: State,
    b: Builtin,
    name: Seq<char>,
    args: Seq<Expr>,
    depth: nat,
    rounds: nat,
) -> Step
    decreases depth, args, 1nat, 0nat,
{
    match arity_error(b, name, args.len()) {
        Some(err) => fail(st, err),
        None => if b == Builtin::And {
            eval_short(st, args, 0, true, depth, rounds)
        } else if b == Builtin::Or {
            eval_short(st, args, 0, false, depth, rounds)
        } else {
            let a = eval_args(st, args, 0, Seq::empty(), depth, rounds);
            match a.values {
                Err(err) => fail(a.state, err),
                Ok(values) => apply_builtin(a.state, b, values),
            }
        },
    }
}

/// The operands of `and` (`conj`) or `or` from `from` on: `and` is zero
/// at its first operand that is zero, `or` is one at its first operand
/// that is not zero, and no later operand is evaluated.
pub open spec fn eval_short(
    st: State,
    args: Seq<Expr>,
    from: int,
    conj: bool,
    depth: nat,
    rounds: nat,
) -> Step
    decreases depth, args, 0nat, args.len() - from,
{
    if 0 <= from < args.len() {
        let s = eval(st, args[from], depth, rounds);
        match truth_of(s.result) {
            Err(err) => fail(s.state, err),
            Ok(t) => if t != conj {
                done(s.state, Flow::Value(truth(t)))
            } else {
                eval_short(s.state, args, from + 1, conj, depth, rounds)
            },
        }
    } else {
        done(st, Flow::Value(truth(conj)))
    }
}

} // verus!
