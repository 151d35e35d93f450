//! The type tags of the language and their names.

use vstd::prelude::*;
use crate::text::same_text;

verus! {

/// The primitive type tags of the language.
#[derive(Debug, Clone, Copy, PartialEq, Eq, Structural)]
pub enum Type {
    Int,
    Float,
    String,
    Boolean,
    Void,
    List,
    Tuple,
}

/// The name under which a type tag is written in source text.
pub open spec fn name_of_type(t: Type) -> Seq<char> {
    match t {
        Type::Int => "int"@,
        Type::Float => "float"@,
        Type::String => "string"@,
        Type::Boolean => "bool"@,
        Type::Void => "void"@,
        Type::List => "list"@,
        Type::Tuple => "tuple"@,
    }
}

/// The type tag that a name stands for; an unknown name stands for
/// `Void`.
pub open spec fn type_of_name(name: Seq<char>) -> Type {
    if name == "int"@ {
        Type::Int
    } else if name == "float"@ {
        Type::Float
    } else if name == "string"@ {
        Type::String
    } else if name == "bool"@ {
        Type::Boolean
    } else if name == "void"@ {
        Type::Void
    } else if name == "list"@ {
        Type::List
    } else if name == "tuple"@ {
        Type::Tuple
    } else {
        Type::Void
    }
}

impl Type {
    /// The type's name.
    pub fn to_string(&self) -> (s: String)
        ensures
            s@ == name_of_type(*self),
    {
        match self {
            Type::Int => String::from_str("int"),
            Type::Float => String::from_str("float"),
            Type::String => String::from_str("string"),
            Type::Boolean => String::from_str("bool"),
            Type::Void => String::from_str("void"),
            Type::List => String::from_str("list"),
            Type::Tuple => String::from_str("tuple"),
        }
    }

    /// The type that `value` names, `Void` for any other text.
    pub fn to_type(value: &str) -> (t: Type)
        ensures
            t == type_of_name(value@),
    {
        if same_text(value, "int") {
            Type::Int
        } else if same_text(value, "float") {
            Type::Float
        } else if same_text(value, "string") {
            Type::String
        } else if same_text(value, "bool") {
            Type::Boolean
        } else if same_text(value, "void") {
            Type::Void
        } else if same_text(value, "list") {
            Type::List
        } else if same_text(value, "tuple") {
            Type::Tuple
        } else {
            Type::Void
        }
    }
}

/// Reading a type's name gives the type back.
pub proof fn lemma_name_of_type_round_trip(t: Type)
    ensures
        type_of_name(name_of_type(t)) == t,
{
    reveal_strlit("int");
    reveal_strlit("float");
    reveal_strlit("string");
    reveal_strlit("bool");
    reveal_strlit("void");
    reveal_strlit("list");
    reveal_strlit("tuple");
    assert("int"@.len() == 3);
    assert("float"@.len() == 5);
    assert("string"@.len() == 6);
    assert("bool"@.len() == 4);
    assert("void"@.len() == 4);
    assert("list"@.len() == 4);
    assert("tuple"@.len() == 5);
    assert("bool"@[0] == 'b' && "void"@[0] == 'v' && "list"@[0] == 'l');
    assert("float"@[0] == 'f' && "tuple"@[0] == 't');
}

} // verus!
