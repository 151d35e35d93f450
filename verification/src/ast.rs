//! The tree of a program: nodes that own their children, the same tree
//! over mathematical values, and copies that keep what a tree says.

use vstd::prelude::*;
use crate::number::Number;
use crate::types::Type;

pub mod printer;

verus! {

/// The operators that take two operands.
#[derive(Debug, Clone, Copy, PartialEq, Eq, Structural)]
pub enum BinaryOp {
    Add,
    Sub,
    Mul,
    Div,
    Mod,
    Pow,
    Eq,
    Ne,
    Lt,
    Gt,
    Lte,
    Gte,
}

/// The operators that take one operand.
#[derive(Debug, Clone, Copy, PartialEq, Eq, Structural)]
pub enum UnaryOp {
    Neg,
    Not,
}

/// One parsed construct of a program.
#[derive(Debug, PartialEq, Eq)]
pub enum ASTNode {
    /// `let name: type = value;`
    Let(String, Type, Box<ASTNode>),
    /// `name = value;`
    Assign(String, Box<ASTNode>),
    /// `del name;`
    Del(String),
    VarRef(String),
    Int(i64),
    Float(Number),
    String(String),
    Boolean(bool),
    Binary(BinaryOp, Box<ASTNode>, Box<ASTNode>),
    Unary(UnaryOp, Box<ASTNode>),
    /// Condition, body, the `elif` conditions with their bodies, the
    /// `else` body.
    IEE(Box<ASTNode>, Vec<ASTNode>, Vec<(ASTNode, Vec<ASTNode>)>, Option<Vec<ASTNode>>),
    /// The value switched on, the cases with their bodies, the default
    /// body.
    Switch(Box<ASTNode>, Vec<(ASTNode, Vec<ASTNode>)>, Option<Vec<ASTNode>>),
    /// The loop variable, the condition, the step, the body.
    For(String, Box<ASTNode>, Box<ASTNode>, Vec<ASTNode>),
    While(Box<ASTNode>, Vec<ASTNode>),
    /// Name, parameters with their types, return type, body.
    FuncDef(String, Vec<(String, Type)>, Type, Vec<ASTNode>),
    FuncCall(String, Vec<ASTNode>),
    Return(Box<ASTNode>),
}

/// What an [`ASTNode`] says: the same tree over sequences and
/// mathematical integers. A `Float` holds the number's units.
pub enum Expr {
    Let(Seq<char>, Type, Box<Expr>),
    Assign(Seq<char>, Box<Expr>),
    Del(Seq<char>),
    VarRef(Seq<char>),
    Int(int),
    Float(int),
    Str(Seq<char>),
    Boolean(bool),
    Binary(BinaryOp, Box<Expr>, Box<Expr>),
    Unary(UnaryOp, Box<Expr>),
    IEE(Box<Expr>, Seq<Expr>, Seq<(Expr, Seq<Expr>)>, Option<Seq<Expr>>),
    Switch(Box<Expr>, Seq<(Expr, Seq<Expr>)>, Option<Seq<Expr>>),
    For(Seq<char>, Box<Expr>, Box<Expr>, Seq<Expr>),
    While(Box<Expr>, Seq<Expr>),
    FuncDef(Seq<char>, Seq<(Seq<char>, Type)>, Type, Seq<Expr>),
    FuncCall(Seq<char>, Seq<Expr>),
    Return(Box<Expr>),
}

/// What a list of nodes says.
pub open spec fn nodes_view(nodes: Seq<ASTNode>) -> Seq<Expr>
    decreases nodes,
{
    Seq::new(
        nodes.len(),
        |i: int|
            if 0 <= i < nodes.len() {
                node_view(nodes[i])
            } else {
                Expr::Boolean(false)
            },
    )
}

/// What a list of conditions with their bodies says.
pub open spec fn arms_view(arms: Seq<(ASTNode, Vec<ASTNode>)>) -> Seq<(Expr, Seq<Expr>)>
    decreases arms,
{
    Seq::new(
        arms.len(),
        |i: int|
            if 0 <= i < arms.len() {
                (node_view(arms[i].0), nodes_view(arms[i].1@))
            } else {
                (Expr::Boolean(false), Seq::empty())
            },
    )
}

/// What a parameter list says.
pub open spec fn params_view(params: Seq<(String, Type)>) -> Seq<(Seq<char>, Type)> {
    Seq::new(params.len(), |i: int| (params[i].0@, params[i].1))
}

/// What a node says.
pub open spec fn node_view(node: ASTNode) -> Expr
    decreases node,
{
    match node {
            ASTNode::Let(name, typ, value) => Expr::Let(name@, typ, Box::new(node_view(*value))),
            ASTNode::Assign(name, value) => Expr::Assign(name@, Box::new(node_view(*value))),
            ASTNode::Del(name) => Expr::Del(name@),
            ASTNode::VarRef(name) => Expr::VarRef(name@),
            ASTNode::Int(i) => Expr::Int(i as int),
            ASTNode::Float(n) => Expr::Float(n@),
            ASTNode::String(s) => Expr::Str(s@),
            ASTNode::Boolean(b) => Expr::Boolean(b),
            ASTNode::Binary(op, lhs, rhs) => Expr::Binary(op, Box::new(node_view(*lhs)), Box::new(node_view(*rhs))),
            ASTNode::Unary(op, operand) => Expr::Unary(op, Box::new(node_view(*operand))),
            ASTNode::IEE(cond, body, elifs, otherwise) => Expr::IEE(
                Box::new(node_view(*cond)),
                nodes_view(body@),
                arms_view(elifs@),
                match otherwise {
                    Some(b) => Some(nodes_view(b@)),
                    None => None,
                },
            ),
            ASTNode::Switch(subject, cases, default) => Expr::Switch(
                Box::new(node_view(*subject)),
                arms_view(cases@),
                match default {
                    Some(b) => Some(nodes_view(b@)),
                    None => None,
                },
            ),
            ASTNode::For(var, cond, step, body) => Expr::For(
                var@,
                Box::new(node_view(*cond)),
                Box::new(node_view(*step)),
                nodes_view(body@),
            ),
            ASTNode::While(cond, body) => Expr::While(Box::new(node_view(*cond)), nodes_view(body@)),
            ASTNode::FuncDef(name, params, ret, body) => Expr::FuncDef(
                name@,
                params_view(params@),
                ret,
                nodes_view(body@),
            ),
            ASTNode::FuncCall(name, args) => Expr::FuncCall(name@, nodes_view(args@)),
            ASTNode::Return(value) => Expr::Return(Box::new(node_view(*value))),
    }
}

impl View for ASTNode {
    type V = Expr;

    open spec fn view(&self) -> Expr {
        node_view(*self)
    }
}

/// A copy of a list of nodes.
pub fn clone_nodes(nodes: &Vec<ASTNode>) -> (copy: Vec<ASTNode>)
    ensures
        nodes_view(copy@) == nodes_view(nodes@),
    decreases nodes,
{
    let mut copy: Vec<ASTNode> = Vec::new();
    let mut i: usize = 0;
    while i < nodes.len()
        invariant
            i <= nodes.len(),
            copy.len() == i,
            forall|k: int| 0 <= k < i ==> node_view(#[trigger] copy[k]) == node_view(nodes[k]),
        decreases nodes.len() - i,
    {
        let c = clone_node(&nodes[i]);
        copy.push(c);
        i = i + 1;
    }
    assert(nodes_view(copy@) =~= nodes_view(nodes@));
    copy
}

/// A copy of a list of conditions with their bodies.
pub fn clone_arms(arms: &Vec<(ASTNode, Vec<ASTNode>)>) -> (copy: Vec<(ASTNode, Vec<ASTNode>)>)
    ensures
        arms_view(copy@) == arms_view(arms@),
    decreases arms,
{
    let mut copy: Vec<(ASTNode, Vec<ASTNode>)> = Vec::new();
    let mut i: usize = 0;
    while i < arms.len()
        invariant
            i <= arms.len(),
            copy.len() == i,
            forall|k: int|
                0 <= k < i ==> node_view((#[trigger] copy[k]).0) == node_view(arms[k].0)
                    && nodes_view(copy[k].1@) == nodes_view(arms[k].1@),
        decreases arms.len() - i,
    {
        let c = clone_node(&arms[i].0);
        let b = clone_nodes(&arms[i].1);
        copy.push((c, b));
        i = i + 1;
    }
    assert(arms_view(copy@) =~= arms_view(arms@));
    copy
}

/// A copy of a parameter list.
pub fn clone_params(params: &Vec<(String, Type)>) -> (copy: Vec<(String, Type)>)
    ensures
        params_view(copy@) == params_view(params@),
{
    let mut copy: Vec<(String, Type)> = Vec::new();
    let mut i: usize = 0;
    while i < params.len()
        invariant
            i <= params.len(),
            copy.len() == i,
            forall|k: int| 0 <= k < i ==> (#[trigger] copy[k]).0@ == params[k].0@ && copy[k].1 == params[k].1,
        decreases params.len() - i,
    {
        copy.push((params[i].0.clone(), params[i].1));
        i = i + 1;
    }
    assert(params_view(copy@) =~= params_view(params@));
    copy
}

/// A copy of a node with everything below it.
pub fn clone_node(node: &ASTNode) -> (copy: ASTNode)
    ensures
        copy@ == node@,
    decreases node,
{
    match node {
        ASTNode::Let(name, typ, value) => ASTNode::Let(
            name.clone(),
            *typ,
            Box::new(clone_node(value)),
        ),
        ASTNode::Assign(name, value) => ASTNode::Assign(name.clone(), Box::new(clone_node(value))),
        ASTNode::Del(name) => ASTNode::Del(name.clone()),
        ASTNode::VarRef(name) => ASTNode::VarRef(name.clone()),
        ASTNode::Int(i) => ASTNode::Int(*i),
        ASTNode::Float(n) => ASTNode::Float(*n),
        ASTNode::String(s) => ASTNode::String(s.clone()),
        ASTNode::Boolean(b) => ASTNode::Boolean(*b),
        ASTNode::Binary(op, lhs, rhs) => ASTNode::Binary(
            *op,
            Box::new(clone_node(lhs)),
            Box::new(clone_node(rhs)),
        ),
        ASTNode::Unary(op, operand) => ASTNode::Unary(*op, Box::new(clone_node(operand))),
        ASTNode::IEE(cond, body, elifs, otherwise) => {
            let o = match otherwise {
                Some(b) => Some(clone_nodes(b)),
                None => None,
            };
            ASTNode::IEE(Box::new(clone_node(cond)), clone_nodes(body), clone_arms(elifs), o)
        },
        ASTNode::Switch(subject, cases, default) => {
            let d = match default {
                Some(b) => Some(clone_nodes(b)),
                None => None,
            };
            ASTNode::Switch(Box::new(clone_node(subject)), clone_arms(cases), d)
        },
        ASTNode::For(var, cond, step, body) => ASTNode::For(
            var.clone(),
            Box::new(clone_node(cond)),
            Box::new(clone_node(step)),
            clone_nodes(body),
        ),
        ASTNode::While(cond, body) => ASTNode::While(
            Box::new(clone_node(cond)),
            clone_nodes(body),
        ),
        ASTNode::FuncDef(name, params, ret, body) => ASTNode::FuncDef(
            name.clone(),
            clone_params(params),
            *ret,
            clone_nodes(body),
        ),
        ASTNode::FuncCall(name, args) => ASTNode::FuncCall(name.clone(), clone_nodes(args)),
        ASTNode::Return(value) => ASTNode::Return(Box::new(clone_node(value))),
    }
}

impl Clone for ASTNode {
    fn clone(&self) -> (copy: Self)
        ensures
            copy@ == self@,
    {
        clone_node(self)
    }
}

} // verus!
