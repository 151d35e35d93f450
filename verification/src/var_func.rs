//! Variables and functions as the parser knows them.

use vstd::prelude::*;
use crate::ast::{clone_node, clone_nodes, nodes_view, ASTNode, Expr};

verus! {

/// A function as the parser knows it: its parameters with the names of
/// their types, its body and the name of its return type.
#[derive(Debug)]
pub struct Function {
    pub name: String,
    pub params: Vec<(String, String)>,
    pub body: Vec<ASTNode>,
    pub return_type: String,
}

/// What a [`Function`] says.
pub struct FunctionEntry {
    pub name: Seq<char>,
    pub params: Seq<(Seq<char>, Seq<char>)>,
    pub body: Seq<Expr>,
    pub return_type: Seq<char>,
}

/// What a list of parameters with the names of their types says.
pub open spec fn named_params_view(params: Seq<(String, String)>) -> Seq<(Seq<char>, Seq<char>)> {
    Seq::new(params.len(), |i: int| (params[i].0@, params[i].1@))
}

impl View for Function {
    type V = FunctionEntry;

    open spec fn view(&self) -> FunctionEntry {
        FunctionEntry {
            name: self.name@,
            params: named_params_view(self.params@),
            body: nodes_view(self.body@),
            return_type: self.return_type@,
        }
    }
}

impl Function {
    /// The function with these parts.
    pub fn new(
        name: String,
        params: Vec<(String, String)>,
        body: Vec<ASTNode>,
        return_type: String,
    ) -> (f: Self)
        ensures
            f.name == name,
            f.params == params,
            f.body == body,
            f.return_type == return_type,
    {
        Self { name, params, body, return_type }
    }
}

/// A copy of a list of parameters with the names of their types.
pub fn clone_named_params(params: &Vec<(String, String)>) -> (copy: Vec<(String, String)>)
    ensures
        named_params_view(copy@) == named_params_view(params@),
{
    let mut copy: Vec<(String, String)> = Vec::new();
    let mut i: usize = 0;
    while i < params.len()
        invariant
            i <= params.len(),
            copy.len() == i,
            forall|k: int|
                0 <= k < i ==> (#[trigger] copy[k]).0@ == params[k].0@ && copy[k].1@
                    == params[k].1@,
        decreases params.len() - i,
    {
        copy.push((params[i].0.clone(), params[i].1.clone()));
        i = i + 1;
    }
    assert(named_params_view(copy@) =~= named_params_view(params@));
    copy
}

impl Clone for Function {
    fn clone(&self) -> (copy: Self)
        ensures
            copy@ == self@,
    {
        Function {
            name: self.name.clone(),
            params: clone_named_params(&self.params),
            body: clone_nodes(&self.body),
            return_type: self.return_type.clone(),
        }
    }
}

/// A variable as the parser knows it: its name, the name of its type,
/// and the literal last assigned to it, where that is known.
#[derive(Debug)]
pub struct VariableInfo {
    pub name: String,
    pub typ: String,
    pub value: Option<ASTNode>,
}

/// What a [`VariableInfo`] says.
pub struct VariableEntry {
    pub name: Seq<char>,
    pub typ: Seq<char>,
    pub value: Option<Expr>,
}

impl View for VariableInfo {
    type V = VariableEntry;

    open spec fn view(&self) -> VariableEntry {
        VariableEntry {
            name: self.name@,
            typ: self.typ@,
            value: match self.value {
                Some(v) => Some(v@),
                None => None,
            },
        }
    }
}

impl VariableInfo {
    /// The variable with these parts.
    pub fn new(name: String, typ: String, value: Option<ASTNode>) -> (v: Self)
        ensures
            v.name == name,
            v.typ == typ,
            v.value == value,
    {
        Self { name, typ, value }
    }
}

impl Clone for VariableInfo {
    fn clone(&self) -> (copy: Self)
        ensures
            copy@ == self@,
    {
        VariableInfo {
            name: self.name.clone(),
            typ: self.typ.clone(),
            value: match &self.value {
                Some(v) => Some(clone_node(v)),
                None => None,
            },
        }
    }
}

} // verus!
