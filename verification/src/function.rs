//! Functions as the evaluator keeps them.

use vstd::prelude::*;
use crate::ast::{clone_nodes, clone_params, nodes_view, params_view, ASTNode, Expr};
use crate::types::Type;

verus! {

/// A function as the evaluator keeps it: its parameters in order, its
/// return type and its body.
#[derive(Debug)]
pub struct Function {
    pub name: String,
    pub params: Vec<(String, Type)>,
    pub body: Vec<ASTNode>,
    pub return_type: Type,
}

/// What a [`Function`] says.
pub struct FunctionModel {
    pub name: Seq<char>,
    pub params: Seq<(Seq<char>, Type)>,
    pub body: Seq<Expr>,
    pub return_type: Type,
}

impl View for Function {
    type V = FunctionModel;

    open spec fn view(&self) -> FunctionModel {
        FunctionModel {
            name: self.name@,
            params: params_view(self.params@),
            body: nodes_view(self.body@),
            return_type: self.return_type,
        }
    }
}

impl Clone for Function {
    fn clone(&self) -> (copy: Self)
        ensures
            copy@ == self@,
    {
        Function {
            name: self.name.clone(),
            params: clone_params(&self.params),
            body: clone_nodes(&self.body),
            return_type: self.return_type,
        }
    }
}

} // verus!
