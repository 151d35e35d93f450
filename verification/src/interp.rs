//! The evaluator: it walks a tree and does what
//! [`semantics`] says the tree means.

use vstd::prelude::*;
use vstd::pervasive::unreached;
use crate::ast::{nodes_view, arms_view, params_view, ASTNode, BinaryOp, UnaryOp};
use crate::env::Table;
use crate::error_handler::{ErrorHandler, ErrorKind};
use crate::function::Function;
use crate::interp::builtins::{
    check_arity,
    compute_builtin,
    exit_code_of,
    find_builtin,
    spaced_values,
    values_view,
    Builtin,
};
use crate::interp::semantics::{
    apply_binary,
    apply_builtin,
    apply_unary,
    arithmetic,
    bind_params,
    debug_lines,
    eval,
    eval_args,
    eval_arms,
    eval_block,
    eval_builtin,
    eval_cases,
    eval_loop,
    eval_short,
    raised,
    truth_of,
    value_of,
    Flow,
    State,
    Step,
};
use crate::interp::variable_value::{Value, VariableValue};
use crate::number::Number;
use crate::parser::grammar::{parse_tokens, Symbols};
use crate::parser::{parse_with, SymbolTable};
use crate::tokenizer::{matches_of, tokenize, tokens_found, LEXEME};
use crate::interp::variable_value::value_text;
use crate::text::texts_view;
use crate::types::Type;

pub mod builtins;
pub mod error_handler;
pub mod function;
pub mod laws;
pub mod parser;
pub mod semantics;
pub mod variable_value;

verus! {

/// How the evaluation of a node ended, where it did not fail.
#[derive(Debug, PartialEq, Eq)]
pub enum Outcome {
    Nothing,
    Value(VariableValue),
    Return(VariableValue),
}

impl View for Outcome {
    type V = Flow;

    open spec fn view(&self) -> Flow {
        match self {
            Outcome::Nothing => Flow::Nothing,
            Outcome::Value(v) => Flow::Value(v@),
            Outcome::Return(v) => Flow::Return(v@),
        }
    }
}

/// What the result of an evaluation says.
pub open spec fn result_view(r: Result<Outcome, ErrorHandler>) -> Result<Flow, ErrorKind> {
    match r {
        Ok(o) => Ok(o@),
        Err(e) => Err(e@),
    }
}

/// The evaluator: the variables, the functions and the lines printed so
/// far, with the two limits that keep every run finite.
#[derive(Debug)]
pub struct Interpreter {
    pub variables: Table<VariableValue>,
    pub functions: Table<Function>,
    pub output: Vec<String>,
    /// The names that the parser has seen declared.
    pub symbols: SymbolTable,
    /// How deep calls may nest.
    pub max_depth: u64,
    /// How many rounds one loop may run.
    pub loop_limit: u64,
}

impl View for Interpreter {
    type V = State;

    open spec fn view(&self) -> State {
        State {
            vars: self.variables@,
            funcs: self.functions@,
            output: texts_view(self.output@),
        }
    }
}

/// The value that an evaluation gave.
fn value_from(r: Result<Outcome, ErrorHandler>) -> (v: Result<VariableValue, ErrorHandler>)
    ensures
        v matches Ok(x) ==> value_of(result_view(r)) == Ok::<Value, ErrorKind>(x@),
        v matches Err(e) ==> value_of(result_view(r)) == Err::<Value, ErrorKind>(e@),
{
    match r {
        Ok(Outcome::Value(v)) => Ok(v),
        Ok(_) => Err(ErrorHandler::SyntaxError(String::from_str("Expected a value"))),
        Err(e) => Err(e),
    }
}

/// Whether an evaluation gave a number other than zero.
fn truth_from(r: Result<Outcome, ErrorHandler>) -> (t: Result<bool, ErrorHandler>)
    ensures
        t matches Ok(b) ==> truth_of(result_view(r)) == Ok::<bool, ErrorKind>(b),
        t matches Err(e) ==> truth_of(result_view(r)) == Err::<bool, ErrorKind>(e@),
{
    match value_from(r) {
        Ok(v) => match v.as_number() {
            Ok(n) => Ok(!n.is_zero()),
            Err(e) => Err(e),
        },
        Err(e) => Err(e),
    }
}

/// A number in range, or the error for one that is not.
fn ranged_value(n: Option<Number>) -> (r: Result<VariableValue, ErrorHandler>)
    ensures
        r matches Ok(v) ==> n matches Some(x) && v@ == Value::Number(x@),
        r matches Err(e) ==> n is None && e@ == ErrorKind::NumberOutOfRange,
{
    match n {
        Some(x) => Ok(VariableValue::Number(x)),
        None => Err(ErrorHandler::NumberOutOfRange),
    }
}

/// A number raised to a number.
fn raise(base: &Number, exp: &Number) -> (r: Result<VariableValue, ErrorHandler>)
    ensures
        r matches Ok(v) ==> raised(base@, exp@) == Ok::<Value, ErrorKind>(v@),
        r matches Err(e) ==> raised(base@, exp@) == Err::<Value, ErrorKind>(e@),
{
    if !exp.is_whole() {
        return Err(ErrorHandler::SyntaxError(String::from_str("Exponent is not a whole number")));
    }
    let k = exp.whole_part();
    if k >= 0 {
        ranged_value(base.power(k as u64))
    } else {
        match base.power((-k) as u64) {
            Some(p) => {
                if p.is_zero() {
                    Err(ErrorHandler::DivisionByZero)
                } else {
                    ranged_value(Number::from_int(1).divided_by(&p))
                }
            },
            None => Err(ErrorHandler::NumberOutOfRange),
        }
    }
}

/// What an operator makes of two numbers.
fn compute_arithmetic(op: BinaryOp, x: &Number, y: &Number) -> (r: Result<
    VariableValue,
    ErrorHandler,
>)
    ensures
        r matches Ok(v) ==> arithmetic(op, x@, y@) == Ok::<Value, ErrorKind>(v@),
        r matches Err(e) ==> arithmetic(op, x@, y@) == Err::<Value, ErrorKind>(e@),
{
    match op {
        BinaryOp::Add => ranged_value(x.plus(y)),
        BinaryOp::Sub => ranged_value(x.minus(y)),
        BinaryOp::Mul => ranged_value(x.times(y)),
        BinaryOp::Div => {
            if y.is_zero() {
                Err(ErrorHandler::DivisionByZero)
            } else {
                ranged_value(x.divided_by(y))
            }
        },
        BinaryOp::Mod => {
            match x.remainder(y) {
                Some(m) => Ok(VariableValue::Number(m)),
                None => Err(ErrorHandler::DivisionByZero),
            }
        },
        BinaryOp::Pow => raise(x, y),
        BinaryOp::Eq => Ok(VariableValue::Number(Number::from_bool(x.equals(y)))),
        BinaryOp::Ne => Ok(VariableValue::Number(Number::from_bool(!x.equals(y)))),
        BinaryOp::Lt => Ok(VariableValue::Number(Number::from_bool(x.less_than(y)))),
        BinaryOp::Gt => Ok(VariableValue::Number(Number::from_bool(y.less_than(x)))),
        BinaryOp::Lte => Ok(VariableValue::Number(Number::from_bool(!y.less_than(x)))),
        BinaryOp::Gte => Ok(VariableValue::Number(Number::from_bool(!x.less_than(y)))),
    }
}

/// What an operator makes of two values.
pub fn compute_binary(op: BinaryOp, a: &VariableValue, b: &VariableValue) -> (r: Result<
    VariableValue,
    ErrorHandler,
>)
    ensures
        r matches Ok(v) ==> apply_binary(op, a@, b@) == Ok::<Value, ErrorKind>(v@),
        r matches Err(e) ==> apply_binary(op, a@, b@) == Err::<Value, ErrorKind>(e@),
{
    match (a, b) {
        (VariableValue::Number(x), VariableValue::Number(y)) => compute_arithmetic(op, x, y),
        (VariableValue::Text(x), VariableValue::Text(y)) => match op {
            BinaryOp::Eq => Ok(VariableValue::Number(Number::from_bool(*x == *y))),
            BinaryOp::Ne => Ok(VariableValue::Number(Number::from_bool(!(*x == *y)))),
            _ => Err(ErrorHandler::ParseError(String::from_str("Expected a number"))),
        },
        _ => match op {
            BinaryOp::Eq => Err(
                ErrorHandler::SyntaxError(String::from_str("Cannot compare a number with a text")),
            ),
            BinaryOp::Ne => Err(
                ErrorHandler::SyntaxError(String::from_str("Cannot compare a number with a text")),
            ),
            _ => Err(ErrorHandler::ParseError(String::from_str("Expected a number"))),
        },
    }
}

/// What an operator makes of one value.
pub fn compute_unary(op: UnaryOp, a: &VariableValue) -> (r: Result<VariableValue, ErrorHandler>)
    ensures
        r matches Ok(v) ==> apply_unary(op, a@) == Ok::<Value, ErrorKind>(v@),
        r matches Err(e) ==> apply_unary(op, a@) == Err::<Value, ErrorKind>(e@),
{
    match a.as_number() {
        Ok(x) => match op {
            UnaryOp::Neg => Ok(VariableValue::Number(x.negated())),
            UnaryOp::Not => Ok(VariableValue::Number(Number::from_bool(x.is_zero()))),
        },
        Err(e) => Err(e),
    }
}

/// A copy of a table of variables.
fn clone_variables(table: &Table<VariableValue>) -> (copy: Table<VariableValue>)
    ensures
        copy@ == table@,
{
    let mut copy: Table<VariableValue> = Table { entries: Vec::new() };
    let mut i: usize = 0;
    while i < table.entries.len()
        invariant
            i <= table.entries.len(),
            copy.entries.len() == i,
            forall|k: int| 0 <= k < i ==> copy@[k] == table@[k],
        decreases table.entries.len() - i,
    {
        let name = table.entries[i].0.clone();
        let value = table.entries[i].1.clone();
        copy.entries.push((name, value));
        i = i + 1;
    }
    assert(copy@ =~= table@);
    copy
}

/// A copy of a table of functions.
fn clone_functions(table: &Table<Function>) -> (copy: Table<Function>)
    ensures
        copy@ == table@,
{
    let mut copy: Table<Function> = Table { entries: Vec::new() };
    let mut i: usize = 0;
    while i < table.entries.len()
        invariant
            i <= table.entries.len(),
            copy.entries.len() == i,
            forall|k: int| 0 <= k < i ==> copy@[k] == table@[k],
        decreases table.entries.len() - i,
    {
        let name = table.entries[i].0.clone();
        let value = table.entries[i].1.clone();
        copy.entries.push((name, value));
        i = i + 1;
    }
    assert(copy@ =~= table@);
    copy
}

impl Interpreter {
    /// Whether `self` has the limits of `other`.
    pub open spec fn same_limits(&self, other: &Interpreter) -> bool {
        self.max_depth == other.max_depth && self.loop_limit == other.loop_limit && self.symbols
            == other.symbols
    }

    /// Whether `after` and `r` are what `step` says, with the limits of
    /// `before`.
    pub open spec fn agrees(
        before: &Interpreter,
        after: &Interpreter,
        r: Result<Outcome, ErrorHandler>,
        step: Step,
    ) -> bool {
        after@ == step.state && result_view(r) == step.result && after.same_limits(before)
    }

    /// An interpreter with no variable, no function and no output, which
    /// lets calls nest a thousand deep and loops run a million rounds.
    pub fn new() -> (i: Self)
        ensures
            i@ == (State { vars: Seq::empty(), funcs: Seq::empty(), output: Seq::empty() }),
            i.symbols@ == (Symbols { vars: Seq::empty(), funcs: Seq::empty() }),
            i.max_depth == 1000,
            i.loop_limit == 1_000_000,
    {
        let i = Interpreter {
            variables: Table::new(),
            functions: Table::new(),
            output: Vec::new(),
            symbols: SymbolTable::new(),
            max_depth: 1000,
            loop_limit: 1_000_000,
        };
        assert(texts_view(i.output@) =~= Seq::empty());
        i
    }

    /// Evaluates one node with `depth` nested calls still allowed.
    pub fn eval_ast(&mut self, node: &ASTNode, depth: u64) -> (r: Result<Outcome, ErrorHandler>)
        ensures
            Self::agrees(
                old(self),
                final(self),
                r,
                eval(old(self)@, node@, depth as nat, old(self).loop_limit as nat),
            ),
        decreases depth, node, 1nat, 0nat,
    {
        match node {
            ASTNode::Int(i) => Ok(Outcome::Value(VariableValue::Number(Number::from_int(*i)))),
            ASTNode::Float(n) => Ok(Outcome::Value(VariableValue::Number(*n))),
            ASTNode::String(s) => Ok(Outcome::Value(VariableValue::Text(s.clone()))),
            ASTNode::Boolean(b) => Ok(Outcome::Value(VariableValue::Number(Number::from_bool(*b)))),
            ASTNode::VarRef(name) => match self.variables.position(name.as_str()) {
                Some(i) => Ok(Outcome::Value(self.variables.value_at(i).clone())),
                None => Err(ErrorHandler::VariableNotFound(name.clone())),
            },
            ASTNode::Let(_, _, _) => self.eval_let(node, depth),
            ASTNode::Assign(_, _) => self.eval_assign(node, depth),
            ASTNode::Del(name) => {
                if self.variables.unbind(name.as_str()) {
                    Ok(Outcome::Nothing)
                } else {
                    Err(ErrorHandler::VariableNotFound(name.clone()))
                }
            },
            ASTNode::Binary(_, _, _) => self.eval_binary(node, depth),
            ASTNode::Unary(_, _) => self.eval_unary(node, depth),
            ASTNode::IEE(_, _, _, _) => self.eval_iee(node, depth),
            ASTNode::Switch(_, _, _) => self.eval_switch(node, depth),
            ASTNode::For(var, _, _, _) => {
                match self.variables.position(var.as_str()) {
                    Some(_) => self.eval_loop(node, depth),
                    None => Err(ErrorHandler::VariableNotFound(var.clone())),
                }
            },
            ASTNode::While(_, _) => self.eval_loop(node, depth),
            ASTNode::FuncDef(name, params, ret, body) => {
                let f = Function {
                    name: name.clone(),
                    params: crate::ast::clone_params(params),
                    body: crate::ast::clone_nodes(body),
                    return_type: *ret,
                };
                self.functions.bind(name.clone(), f);
                Ok(Outcome::Nothing)
            },
            ASTNode::FuncCall(_, _) => self.eval_call(node, depth),
            ASTNode::Return(value) => {
                let r = self.eval_ast(value, depth);
                match value_from(r) {
                    Ok(v) => Ok(Outcome::Return(v)),
                    Err(e) => Err(e),
                }
            },
        }
    }

    fn eval_let(&mut self, node: &ASTNode, depth: u64) -> (r: Result<Outcome, ErrorHandler>)
        requires
            node is Let,
        ensures
            Self::agrees(
                old(self),
                final(self),
                r,
                eval(old(self)@, node@, depth as nat, old(self).loop_limit as nat),
            ),
        decreases depth, node, 0nat, 0nat,
    {
        match node {
            ASTNode::Let(name, _, init) => {
                let r = self.eval_ast(init, depth);
                match value_from(r) {
                    Err(e) => Err(e),
                    Ok(v) => {
                        match self.variables.position(name.as_str()) {
                            Some(_) => Err(ErrorHandler::VariableAlreadyExists(name.clone())),
                            None => {
                                self.variables.bind(name.clone(), v);
                                Ok(Outcome::Nothing)
                            },
                        }
                    },
                }
            },
            _ => unreached(),
        }
    }

    fn eval_assign(&mut self, node: &ASTNode, depth: u64) -> (r: Result<Outcome, ErrorHandler>)
        requires
            node is Assign,
        ensures
            Self::agrees(
                old(self),
                final(self),
                r,
                eval(old(self)@, node@, depth as nat, old(self).loop_limit as nat),
            ),
        decreases depth, node, 0nat, 0nat,
    {
        match node {
            ASTNode::Assign(name, value) => {
                match self.variables.position(name.as_str()) {
                    None => Err(ErrorHandler::VariableNotFound(name.clone())),
                    Some(_) => {
                        let r = self.eval_ast(value, depth);
                        match value_from(r) {
                            Err(e) => Err(e),
                            Ok(v) => {
                                self.variables.bind(name.clone(), v);
                                Ok(Outcome::Nothing)
                            },
                        }
                    },
                }
            },
            _ => unreached(),
        }
    }

    fn eval_binary(&mut self, node: &ASTNode, depth: u64) -> (r: Result<Outcome, ErrorHandler>)
        requires
            node is Binary,
        ensures
            Self::agrees(
                old(self),
                final(self),
                r,
                eval(old(self)@, node@, depth as nat, old(self).loop_limit as nat),
            ),
        decreases depth, node, 0nat, 0nat,
    {
        match node {
            ASTNode::Binary(op, lhs, rhs) => {
                let r1 = self.eval_ast(lhs, depth);
                let a = match value_from(r1) {
                    Ok(a) => a,
                    Err(e) => {
                        return Err(e);
                    },
                };
                let r2 = self.eval_ast(rhs, depth);
                let b = match value_from(r2) {
                    Ok(b) => b,
                    Err(e) => {
                        return Err(e);
                    },
                };
                match compute_binary(*op, &a, &b) {
                    Ok(v) => Ok(Outcome::Value(v)),
                    Err(e) => Err(e),
                }
            },
            _ => unreached(),
        }
    }

    fn eval_unary(&mut self, node: &ASTNode, depth: u64) -> (r: Result<Outcome, ErrorHandler>)
        requires
            node is Unary,
        ensures
            Self::agrees(
                old(self),
                final(self),
                r,
                eval(old(self)@, node@, depth as nat, old(self).loop_limit as nat),
            ),
        decreases depth, node, 0nat, 0nat,
    {
        match node {
            ASTNode::Unary(op, operand) => {
                let r1 = self.eval_ast(operand, depth);
                let a = match value_from(r1) {
                    Ok(a) => a,
                    Err(e) => {
                        return Err(e);
                    },
                };
                match compute_unary(*op, &a) {
                    Ok(v) => Ok(Outcome::Value(v)),
                    Err(e) => Err(e),
                }
            },
            _ => unreached(),
        }
    }

    /// Evaluates the statements of a body in order.
    pub fn eval_body(&mut self, body: &Vec<ASTNode>, depth: u64) -> (r: Result<
        Outcome,
        ErrorHandler,
    >)
        ensures
            Self::agrees(
                old(self),
                final(self),
                r,
                eval_block(
                    old(self)@,
                    nodes_view(body@),
                    0,
                    Flow::Nothing,
                    depth as nat,
                    old(self).loop_limit as nat,
                ),
            ),
        decreases depth, body, 0nat, 0nat,
    {
        let ghost start = self@;
        let ghost before = *self;
        let ghost exprs = nodes_view(body@);
        let ghost rounds = self.loop_limit as nat;
        let mut last = Outcome::Nothing;
        let mut i: usize = 0;
        while i < body.len()
            invariant
                i <= body.len(),
                exprs == nodes_view(body@),
                rounds == self.loop_limit,
                self.same_limits(&before),
                start == old(self)@,
                before == *old(self),
                eval_block(start, exprs, 0, Flow::Nothing, depth as nat, rounds) == eval_block(
                    self@,
                    exprs,
                    i as int,
                    last@,
                    depth as nat,
                    rounds,
                ),
            decreases body.len() - i,
        {
            assert(exprs[i as int] == body[i as int]@);
            let r = self.eval_ast(&body[i], depth);
            match r {
                Err(e) => {
                    return Err(e);
                },
                Ok(Outcome::Return(v)) => {
                    return Ok(Outcome::Return(v));
                },
                Ok(flow) => {
                    last = flow;
                },
            }
            i = i + 1;
        }
        Ok(last)
    }
}

impl Interpreter {
    /// Tries the `elif` arms in order and runs the body of the first
    /// whose condition is not zero; `None` where none is taken.
    fn eval_elifs(&mut self, arms: &Vec<(ASTNode, Vec<ASTNode>)>, depth: u64) -> (r: Option<
        Result<Outcome, ErrorHandler>,
    >)
        ensures
            ({
                let step = eval_arms(
                    old(self)@,
                    arms_view(arms@),
                    0,
                    depth as nat,
                    old(self).loop_limit as nat,
                );
                &&& final(self)@ == step.state
                &&& final(self).same_limits(old(self))
                &&& r matches Some(x) ==> step.taken == Some(result_view(x))
                &&& r is None ==> step.taken is None
            }),
        decreases depth, arms, 0nat, 0nat,
    {
        let ghost start = self@;
        let ghost before = *self;
        let ghost models = arms_view(arms@);
        let ghost rounds = self.loop_limit as nat;
        let mut i: usize = 0;
        while i < arms.len()
            invariant
                i <= arms.len(),
                models == arms_view(arms@),
                rounds == self.loop_limit,
                self.same_limits(&before),
                start == old(self)@,
                before == *old(self),
                eval_arms(start, models, 0, depth as nat, rounds) == eval_arms(
                    self@,
                    models,
                    i as int,
                    depth as nat,
                    rounds,
                ),
            decreases arms.len() - i,
        {
            assert(models[i as int] == (arms[i as int].0@, nodes_view(arms[i as int].1@)));
            let c = self.eval_ast(&arms[i].0, depth);
            match truth_from(c) {
                Err(e) => {
                    return Some(Err(e));
                },
                Ok(true) => {
                    let b = self.eval_body(&arms[i].1, depth);
                    return Some(b);
                },
                Ok(false) => {},
            }
            i = i + 1;
        }
        None
    }

    fn eval_iee(&mut self, node: &ASTNode, depth: u64) -> (r: Result<Outcome, ErrorHandler>)
        requires
            node is IEE,
        ensures
            Self::agrees(
                old(self),
                final(self),
                r,
                eval(old(self)@, node@, depth as nat, old(self).loop_limit as nat),
            ),
        decreases depth, node, 0nat, 1nat,
    {
        match node {
            ASTNode::IEE(cond, body, elifs, otherwise) => {
                let c = self.eval_ast(cond, depth);
                match truth_from(c) {
                    Err(e) => Err(e),
                    Ok(true) => self.eval_body(body, depth),
                    Ok(false) => {
                        match self.eval_elifs(elifs, depth) {
                            Some(r) => r,
                            None => match otherwise {
                                Some(b) => self.eval_body(b, depth),
                                None => Ok(Outcome::Nothing),
                            },
                        }
                    },
                }
            },
            _ => unreached(),
        }
    }

    /// Tries the cases of a `switch` in order and runs the body of the
    /// first whose value equals `subject`; `None` where none is taken.
    fn eval_switch_cases(
        &mut self,
        subject: &Number,
        cases: &Vec<(ASTNode, Vec<ASTNode>)>,
        depth: u64,
    ) -> (r: Option<Result<Outcome, ErrorHandler>>)
        ensures
            ({
                let step = eval_cases(
                    old(self)@,
                    subject@,
                    arms_view(cases@),
                    0,
                    depth as nat,
                    old(self).loop_limit as nat,
                );
                &&& final(self)@ == step.state
                &&& final(self).same_limits(old(self))
                &&& r matches Some(x) ==> step.taken == Some(result_view(x))
                &&& r is None ==> step.taken is None
            }),
        decreases depth, cases, 0nat, 0nat,
    {
        let ghost start = self@;
        let ghost before = *self;
        let ghost models = arms_view(cases@);
        let ghost rounds = self.loop_limit as nat;
        let mut i: usize = 0;
        while i < cases.len()
            invariant
                i <= cases.len(),
                models == arms_view(cases@),
                rounds == self.loop_limit,
                self.same_limits(&before),
                start == old(self)@,
                before == *old(self),
                eval_cases(start, subject@, models, 0, depth as nat, rounds) == eval_cases(
                    self@,
                    subject@,
                    models,
                    i as int,
                    depth as nat,
                    rounds,
                ),
            decreases cases.len() - i,
        {
            assert(models[i as int] == (cases[i as int].0@, nodes_view(cases[i as int].1@)));
            let c = self.eval_ast(&cases[i].0, depth);
            let v = match value_from(c) {
                Ok(v) => v,
                Err(e) => {
                    return Some(Err(e));
                },
            };
            let n = match v.as_number() {
                Ok(n) => n,
                Err(e) => {
                    return Some(Err(e));
                },
            };
            if n.equals(subject) {
                let b = self.eval_body(&cases[i].1, depth);
                return Some(b);
            }
            i = i + 1;
        }
        None
    }

    fn eval_switch(&mut self, node: &ASTNode, depth: u64) -> (r: Result<Outcome, ErrorHandler>)
        requires
            node is Switch,
        ensures
            Self::agrees(
                old(self),
                final(self),
                r,
                eval(old(self)@, node@, depth as nat, old(self).loop_limit as nat),
            ),
        decreases depth, node, 0nat, 1nat,
    {
        match node {
            ASTNode::Switch(subject, cases, default) => {
                let s = self.eval_ast(subject, depth);
                let v = match value_from(s) {
                    Ok(v) => v,
                    Err(e) => {
                        return Err(e);
                    },
                };
                let n = match v.as_number() {
                    Ok(n) => n,
                    Err(e) => {
                        return Err(e);
                    },
                };
                match self.eval_switch_cases(&n, cases, depth) {
                    Some(r) => r,
                    None => match default {
                        Some(b) => self.eval_body(b, depth),
                        None => Ok(Outcome::Nothing),
                    },
                }
            },
            _ => unreached(),
        }
    }

    /// Runs a `while` or a `for` loop.
    fn eval_loop(&mut self, node: &ASTNode, depth: u64) -> (r: Result<Outcome, ErrorHandler>)
        requires
            node is While || node is For,
        ensures
            Self::agrees(
                old(self),
                final(self),
                r,
                eval_loop(
                    old(self)@,
                    node@,
                    old(self).loop_limit as nat,
                    depth as nat,
                    old(self).loop_limit as nat,
                ),
            ),
        decreases depth, node, 0nat, 0nat,
    {
        let ghost start = self@;
        let ghost before = *self;
        let ghost rounds = self.loop_limit as nat;
        let mut left: u64 = self.loop_limit;
        loop
            invariant
                node is While || node is For,
                rounds == self.loop_limit,
                self.same_limits(&before),
                start == old(self)@,
                before == *old(self),
                eval_loop(start, node@, rounds, depth as nat, rounds) == eval_loop(
                    self@,
                    node@,
                    left as nat,
                    depth as nat,
                    rounds,
                ),
            decreases left,
        {
            let c = match node {
                ASTNode::While(cond, _) => self.eval_ast(cond, depth),
                ASTNode::For(_, cond, _, _) => self.eval_ast(cond, depth),
                _ => unreached(),
            };
            match truth_from(c) {
                Err(e) => {
                    return Err(e);
                },
                Ok(false) => {
                    return Ok(Outcome::Nothing);
                },
                Ok(true) => {},
            }
            if left == 0 {
                return Err(ErrorHandler::LoopLimitExceeded);
            }
            let b = match node {
                ASTNode::While(_, body) => self.eval_body(body, depth),
                ASTNode::For(_, _, _, body) => self.eval_body(body, depth),
                _ => unreached(),
            };
            match b {
                Err(e) => {
                    return Err(e);
                },
                Ok(Outcome::Return(v)) => {
                    return Ok(Outcome::Return(v));
                },
                Ok(_) => {},
            }
            match node {
                ASTNode::For(_, _, step, _) => {
                    let s = self.eval_ast(step, depth);
                    match s {
                        Err(e) => {
                            return Err(e);
                        },
                        Ok(Outcome::Return(v)) => {
                            return Ok(Outcome::Return(v));
                        },
                        Ok(_) => {},
                    }
                },
                _ => {},
            }
            left = left - 1;
        }
    }

    /// Evaluates the arguments of a call from left to right.
    fn eval_arguments(&mut self, args: &Vec<ASTNode>, depth: u64) -> (r: Result<
        Vec<VariableValue>,
        ErrorHandler,
    >)
        ensures
            ({
                let step = eval_args(
                    old(self)@,
                    nodes_view(args@),
                    0,
                    Seq::empty(),
                    depth as nat,
                    old(self).loop_limit as nat,
                );
                &&& final(self)@ == step.state
                &&& final(self).same_limits(old(self))
                &&& r matches Ok(v) ==> step.values == Ok::<Seq<Value>, ErrorKind>(values_view(v@))
                    && v.len() == args.len()
                &&& r matches Err(e) ==> step.values == Err::<Seq<Value>, ErrorKind>(e@)
            }),
        decreases depth, args, 0nat, 0nat,
    {
        let ghost start = self@;
        let ghost before = *self;
        let ghost exprs = nodes_view(args@);
        let ghost rounds = self.loop_limit as nat;
        let mut values: Vec<VariableValue> = Vec::new();
        let mut i: usize = 0;
        assert(values_view(values@) =~= Seq::empty());
        while i < args.len()
            invariant
                i <= args.len(),
                values.len() == i,
                exprs == nodes_view(args@),
                rounds == self.loop_limit,
                self.same_limits(&before),
                start == old(self)@,
                before == *old(self),
                eval_args(start, exprs, 0, Seq::empty(), depth as nat, rounds) == eval_args(
                    self@,
                    exprs,
                    i as int,
                    values_view(values@),
                    depth as nat,
                    rounds,
                ),
            decreases args.len() - i,
        {
            assert(exprs[i as int] == args[i as int]@);
            let r = self.eval_ast(&args[i], depth);
            match value_from(r) {
                Err(e) => {
                    return Err(e);
                },
                Ok(v) => {
                    let ghost earlier = values_view(values@);
                    values.push(v);
                    assert(values_view(values@) =~= earlier.push(v@));
                },
            }
            i = i + 1;
        }
        Ok(values)
    }

    /// Evaluates the operands of `and` (`conj`) or `or` up to the first
    /// that decides.
    fn eval_short_circuit(&mut self, args: &Vec<ASTNode>, conj: bool, depth: u64) -> (r: Result<
        Outcome,
        ErrorHandler,
    >)
        ensures
            Self::agrees(
                old(self),
                final(self),
                r,
                eval_short(
                    old(self)@,
                    nodes_view(args@),
                    0,
                    conj,
                    depth as nat,
                    old(self).loop_limit as nat,
                ),
            ),
        decreases depth, args, 0nat, 0nat,
    {
        let ghost start = self@;
        let ghost before = *self;
        let ghost exprs = nodes_view(args@);
        let ghost rounds = self.loop_limit as nat;
        let mut i: usize = 0;
        while i < args.len()
            invariant
                i <= args.len(),
                exprs == nodes_view(args@),
                rounds == self.loop_limit,
                self.same_limits(&before),
                start == old(self)@,
                before == *old(self),
                eval_short(start, exprs, 0, conj, depth as nat, rounds) == eval_short(
                    self@,
                    exprs,
                    i as int,
                    conj,
                    depth as nat,
                    rounds,
                ),
            decreases args.len() - i,
        {
            assert(exprs[i as int] == args[i as int]@);
            let r = self.eval_ast(&args[i], depth);
            match truth_from(r) {
                Err(e) => {
                    return Err(e);
                },
                Ok(t) => {
                    if t != conj {
                        return Ok(Outcome::Value(VariableValue::Number(Number::from_bool(t))));
                    }
                },
            }
            i = i + 1;
        }
        Ok(Outcome::Value(VariableValue::Number(Number::from_bool(conj))))
    }

    /// Adds the lines of `debug` to the output.
    fn push_debug_lines(&mut self)
        ensures
            final(self)@ == (State {
                output: old(self)@.output + debug_lines(old(self)@),
                ..old(self)@
            }),
            final(self).same_limits(old(self)),
    {
        let ghost start = self@;
        let ghost before = *self;
        let ghost lines = debug_lines(start);
        let mut i: usize = 0;
        while i < self.variables.len()
            invariant
                i <= self.variables@.len(),
                self.variables@ == start.vars,
                self.functions@ == start.funcs,
                self.same_limits(&before),
                start == old(self)@,
                before == *old(self),
                lines == debug_lines(start),
                texts_view(self.output@) == start.output + lines.take(i as int),
            decreases self.variables@.len() - i,
        {
            let mut line = self.variables.name_at(i).clone();
            line.append(": ");
            let text = self.variables.value_at(i).to_string();
            line.append(text.as_str());
            let ghost earlier = texts_view(self.output@);
            self.output.push(line);
            assert(texts_view(self.output@) =~= earlier.push(line@));
            assert(lines.len() == start.vars.len() + start.funcs.len());
            assert(lines.take(i + 1) =~= lines.take(i as int).push(lines[i as int]));
            i = i + 1;
        }
        let n: usize = self.variables.len();
        let mut j: usize = 0;
        while j < self.functions.len()
            invariant
                j <= self.functions@.len(),
                n == start.vars.len(),
                self.variables@ == start.vars,
                self.functions@ == start.funcs,
                self.same_limits(&before),
                start == old(self)@,
                before == *old(self),
                lines == debug_lines(start),
                texts_view(self.output@) == start.output + lines.take(n + j),
            decreases self.functions@.len() - j,
        {
            let line = self.functions.name_at(j).clone();
            let ghost earlier = texts_view(self.output@);
            self.output.push(line);
            assert(texts_view(self.output@) =~= earlier.push(line@));
            assert(lines.len() == start.vars.len() + start.funcs.len());
            assert(lines.take(n + j + 1) =~= lines.take(n + j).push(lines[n + j]));
            j = j + 1;
        }
        assert(lines.take(n + j) =~= lines);
    }

    /// Does what a built-in function does with the values of its
    /// arguments.
    fn run_builtin(&mut self, b: Builtin, values: Vec<VariableValue>) -> (r: Result<
        Outcome,
        ErrorHandler,
    >)
        requires
            crate::interp::builtins::arity_error(b, Seq::empty(), values.len() as nat) is None,
        ensures
            Self::agrees(
                old(self),
                final(self),
                r,
                apply_builtin(old(self)@, b, values_view(values@)),
            ),
    {
        match b {
            Builtin::Print => {
                let line = spaced_values(&values);
                let ghost earlier = texts_view(self.output@);
                self.output.push(line);
                assert(texts_view(self.output@) =~= earlier.push(line@));
                Ok(Outcome::Nothing)
            },
            Builtin::Debug => {
                self.push_debug_lines();
                Ok(Outcome::Nothing)
            },
            Builtin::Exit => {
                assert(values_view(values@)[0] == values[0]@);
                match values[0].as_number() {
                    Ok(n) => Err(ErrorHandler::ExitRequested(exit_code_of(&n))),
                    Err(e) => Err(e),
                }
            },
            _ => match compute_builtin(b, &values) {
                Ok(v) => Ok(Outcome::Value(v)),
                Err(e) => Err(e),
            },
        }
    }

    /// Calls a built-in function.
    fn eval_builtin_call(&mut self, b: Builtin, name: &String, args: &Vec<ASTNode>, depth: u64) -> (r:
        Result<Outcome, ErrorHandler>)
        ensures
            Self::agrees(
                old(self),
                final(self),
                r,
                eval_builtin(
                    old(self)@,
                    b,
                    name@,
                    nodes_view(args@),
                    depth as nat,
                    old(self).loop_limit as nat,
                ),
            ),
        decreases depth, args, 1nat, 0nat,
    {
        match check_arity(b, name, args.len()) {
            Some(e) => {
                return Err(e);
            },
            None => {},
        }
        match b {
            Builtin::And => self.eval_short_circuit(args, true, depth),
            Builtin::Or => self.eval_short_circuit(args, false, depth),
            _ => {
                match self.eval_arguments(args, depth) {
                    Err(e) => Err(e),
                    Ok(values) => self.run_builtin(b, values),
                }
            },
        }
    }

    /// Binds each parameter to its argument.
    fn bind_parameters(&mut self, params: &Vec<(String, Type)>, values: &Vec<VariableValue>)
        ensures
            final(self)@ == (State {
                vars: bind_params(
                    old(self)@.vars,
                    params_view(params@),
                    values_view(values@),
                    0,
                ),
                ..old(self)@
            }),
            final(self).same_limits(old(self)),
    {
        let ghost start = self@;
        let ghost before = *self;
        let ghost ps = params_view(params@);
        let ghost vs = values_view(values@);
        let mut i: usize = 0;
        while i < params.len() && i < values.len()
            invariant
                i <= params.len(),
                i <= values.len(),
                ps == params_view(params@),
                vs == values_view(values@),
                self.functions@ == start.funcs,
                texts_view(self.output@) == start.output,
                self.same_limits(&before),
                start == old(self)@,
                before == *old(self),
                bind_params(start.vars, ps, vs, 0) == bind_params(self@.vars, ps, vs, i as int),
            decreases params.len() - i,
        {
            self.variables.bind(params[i].0.clone(), values[i].clone());
            i = i + 1;
        }
    }

    fn eval_call(&mut self, node: &ASTNode, depth: u64) -> (r: Result<Outcome, ErrorHandler>)
        requires
            node is FuncCall,
        ensures
            Self::agrees(
                old(self),
                final(self),
                r,
                eval(old(self)@, node@, depth as nat, old(self).loop_limit as nat),
            ),
        decreases depth, node, 0nat, 0nat,
    {
        match node {
            ASTNode::FuncCall(name, args) => {
                match find_builtin(name.as_str()) {
                    Some(b) => {
                        return self.eval_builtin_call(b, name, args, depth);
                    },
                    None => {},
                }
                let f = match self.functions.position(name.as_str()) {
                    Some(i) => self.functions.value_at(i).clone(),
                    None => {
                        return Err(ErrorHandler::FunctionNotFound(name.clone()));
                    },
                };
                assert(f@.params.len() == f.params.len());
                assert(nodes_view(args@).len() == args.len());
                if args.len() > f.params.len() {
                    return Err(ErrorHandler::TooManyArguments(name.clone()));
                }
                if args.len() < f.params.len() {
                    return Err(ErrorHandler::TooFewArguments(name.clone()));
                }
                if depth == 0 {
                    return Err(ErrorHandler::StackOverflow);
                }
                let values = match self.eval_arguments(args, depth) {
                    Ok(v) => v,
                    Err(e) => {
                        return Err(e);
                    },
                };
                let saved_variables = clone_variables(&self.variables);
                let saved_functions = clone_functions(&self.functions);
                self.bind_parameters(&f.params, &values);
                let r = self.eval_body(&f.body, depth - 1);
                self.variables = saved_variables;
                self.functions = saved_functions;
                match r {
                    Err(e) => Err(e),
                    Ok(Outcome::Return(v)) => Ok(Outcome::Value(v)),
                    Ok(flow) => Ok(flow),
                }
            },
            _ => unreached(),
        }
    }
}

/// The lines with a line feed between each two.
pub open spec fn joined(lines: Seq<Seq<char>>) -> Seq<char>
    decreases lines.len(),
{
    if lines.len() == 0 {
        Seq::empty()
    } else if lines.len() == 1 {
        lines[0]
    } else {
        joined(lines.drop_last()) + seq!['\n'] + lines.last()
    }
}

/// What a run reports where it printed nothing: the value that its last
/// statement gave, or `OK` where it gave none.
pub open spec fn report(flow: Flow) -> Seq<char> {
    match flow {
        Flow::Nothing => "OK"@,
        Flow::Value(v) => value_text(v),
        Flow::Return(v) => value_text(v),
    }
}

/// The interpreter after a run, and what the run gave.
pub struct Run {
    pub state: State,
    pub symbols: Symbols,
    pub result: Result<Seq<char>, ErrorKind>,
}

/// The run of a program given by its tokens. A program that does not
/// parse changes nothing. One that does is evaluated statement by
/// statement; where that fails, what was printed before stays in the
/// output; where it succeeds, the run gives the printed lines and the
/// output is empty again.
pub open spec fn run(
    state: State,
    symbols: Symbols,
    toks: Seq<Seq<char>>,
    depth: nat,
    rounds: nat,
) -> Run {
    match parse_tokens(toks, symbols) {
        Err(e) => Run { state, symbols, result: Err(e) },
        Ok((tree, declared)) => {
            let step = eval_block(state, tree, 0, Flow::Nothing, depth, rounds);
            match step.result {
                Err(e) => Run { state: step.state, symbols: declared, result: Err(e) },
                Ok(flow) => Run {
                    state: State { output: Seq::empty(), ..step.state },
                    symbols: declared,
                    result: Ok(
                        if step.state.output.len() == 0 {
                            report(flow)
                        } else {
                            joined(step.state.output)
                        },
                    ),
                },
            }
        },
    }
}

/// The lines with a line feed between each two.
fn join_lines(lines: &Vec<String>) -> (s: String)
    ensures
        s@ == joined(texts_view(lines@)),
{
    let ghost all = texts_view(lines@);
    let mut out = String::new();
    let mut i: usize = 0;
    assert(all.take(0) =~= Seq::empty());
    while i < lines.len()
        invariant
            i <= lines.len(),
            all == texts_view(lines@),
            out@ == joined(all.take(i as int)),
        decreases lines.len() - i,
    {
        if i > 0 {
            out.append("\n");
            proof {
                reveal_strlit("\n");
                assert("\n"@ == seq!['\n']);
            }
        }
        out.append(lines[i].as_str());
        assert(all.take(i + 1).drop_last() == all.take(i as int));
        assert(all.take(i + 1).last() == all[i as int]);
        assert(all.take(i + 1)[0] == all[0]);
        i = i + 1;
    }
    assert(all.take(i as int) == all);
    out
}

impl Interpreter {
    /// Whether `self` after a run and what the run gave are what `run`
    /// says.
    pub open spec fn ran(&self, before: &Interpreter, r: Result<String, ErrorHandler>, m: Run) -> bool {
        &&& self@ == m.state
        &&& self.symbols@ == m.symbols
        &&& self.max_depth == before.max_depth
        &&& self.loop_limit == before.loop_limit
        &&& match r {
            Ok(text) => m.result == Ok::<Seq<char>, ErrorKind>(text@),
            Err(e) => m.result == Err::<Seq<char>, ErrorKind>(e@),
        }
    }

    /// Runs a program given by its tokens.
    pub fn eval_tokens(&mut self, tokens: &Vec<String>) -> (r: Result<String, ErrorHandler>)
        ensures
            final(self).ran(
                old(self),
                r,
                run(
                    old(self)@,
                    old(self).symbols@,
                    texts_view(tokens@),
                    old(self).max_depth as nat,
                    old(self).loop_limit as nat,
                ),
            ),
    {
        let (tree, declared) = match parse_with(tokens, self.symbols.clone()) {
            Ok(x) => x,
            Err(e) => {
                return Err(e);
            },
        };
        self.symbols = declared;
        let depth = self.max_depth;
        match self.eval_body(&tree, depth) {
            Err(e) => Err(e),
            Ok(outcome) => {
                let text = if self.output.len() == 0 {
                    match outcome {
                        Outcome::Nothing => String::from_str("OK"),
                        Outcome::Value(v) => v.to_string(),
                        Outcome::Return(v) => v.to_string(),
                    }
                } else {
                    join_lines(&self.output)
                };
                self.output = Vec::new();
                assert(texts_view(self.output@) =~= Seq::empty());
                Ok(text)
            },
        }
    }

    /// Runs a program given as source text: the text is cut into tokens,
    /// the tokens are parsed, and the tree is evaluated.
    pub fn eval(&mut self, expr: &str) -> (r: Result<String, ErrorHandler>)
        ensures
            final(self).ran(
                old(self),
                r,
                run(
                    old(self)@,
                    old(self).symbols@,
                    tokens_found(matches_of(LEXEME@, expr@)),
                    old(self).max_depth as nat,
                    old(self).loop_limit as nat,
                ),
            ),
    {
        let tokens = tokenize(expr);
        self.eval_tokens(&tokens)
    }
}

} // verus!
