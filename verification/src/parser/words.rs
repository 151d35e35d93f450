//! The signs, marks and words of the language, character by character.

use vstd::prelude::*;
use crate::ast::printer::binary_sign;
use crate::ast::BinaryOp;
use crate::parser::grammar::{
    is_identifier,
    is_letter,
    is_name,
    is_name_char,
    is_reserved,
    is_string_token,
    operator_at,
};
use crate::types::{name_of_type, type_of_name, Type};

verus! {

/// The level of precedence of an operator: 0 for equality, 1 for
/// ordering, 2 for sum and difference, 3 for product, quotient and
/// remainder, 4 for power.
pub open spec fn level_of(op: BinaryOp) -> int {
    match op {
        BinaryOp::Eq => 0,
        BinaryOp::Ne => 0,
        BinaryOp::Lt => 1,
        BinaryOp::Lte => 1,
        BinaryOp::Gt => 1,
        BinaryOp::Gte => 1,
        BinaryOp::Add => 2,
        BinaryOp::Sub => 2,
        BinaryOp::Mul => 3,
        BinaryOp::Div => 3,
        BinaryOp::Mod => 3,
        BinaryOp::Pow => 4,
    }
}

/// Whether a token is a punctuation mark after which no expression
/// goes on.
pub open spec fn is_stop(t: Seq<char>) -> bool {
    t == ")"@ || t == ","@ || t == ";"@ || t == "{"@
}

/// What the signs and marks of the language are, character by
/// character.
pub proof fn lemma_marks()
    ensures
        "("@ == seq!['('],
        ")"@ == seq![')'],
        ","@ == seq![','],
        ";"@ == seq![';'],
        "{"@ == seq!['{'],
        "}"@ == seq!['}'],
        ":"@ == seq![':'],
        "="@ == seq!['='],
        "-"@ == seq!['-'],
        "!"@ == seq!['!'],
        "^"@ == seq!['^'],
        "+"@ == seq!['+'],
        "*"@ == seq!['*'],
        "/"@ == seq!['/'],
        "%"@ == seq!['%'],
        "<"@ == seq!['<'],
        ">"@ == seq!['>'],
        "=="@ == seq!['=', '='],
        "!="@ == seq!['!', '='],
        "<="@ == seq!['<', '='],
        ">="@ == seq!['>', '='],
        "true"@ == seq!['t', 'r', 'u', 'e'],
        "false"@ == seq!['f', 'a', 'l', 's', 'e'],
{
    reveal_strlit("(");
    reveal_strlit(")");
    reveal_strlit(",");
    reveal_strlit(";");
    reveal_strlit("{");
    reveal_strlit("}");
    reveal_strlit(":");
    reveal_strlit("=");
    reveal_strlit("-");
    reveal_strlit("!");
    reveal_strlit("^");
    reveal_strlit("+");
    reveal_strlit("*");
    reveal_strlit("/");
    reveal_strlit("%");
    reveal_strlit("<");
    reveal_strlit(">");
    reveal_strlit("==");
    reveal_strlit("!=");
    reveal_strlit("<=");
    reveal_strlit(">=");
    reveal_strlit("true");
    reveal_strlit("false");
    assert("("@ =~= seq!['(']);
    assert(")"@ =~= seq![')']);
    assert(","@ =~= seq![',']);
    assert(";"@ =~= seq![';']);
    assert("{"@ =~= seq!['{']);
    assert("}"@ =~= seq!['}']);
    assert(":"@ =~= seq![':']);
    assert("="@ =~= seq!['=']);
    assert("-"@ =~= seq!['-']);
    assert("!"@ =~= seq!['!']);
    assert("^"@ =~= seq!['^']);
    assert("+"@ =~= seq!['+']);
    assert("*"@ =~= seq!['*']);
    assert("/"@ =~= seq!['/']);
    assert("%"@ =~= seq!['%']);
    assert("<"@ =~= seq!['<']);
    assert(">"@ =~= seq!['>']);
    assert("=="@ =~= seq!['=', '=']);
    assert("!="@ =~= seq!['!', '=']);
    assert("<="@ =~= seq!['<', '=']);
    assert(">="@ =~= seq!['>', '=']);
    assert("true"@ =~= seq!['t', 'r', 'u', 'e']);
    assert("false"@ =~= seq!['f', 'a', 'l', 's', 'e']);
}

/// Each operator is written by one sign, which stands for it at its own
/// level and for nothing at any other; only the power is written `^`.
pub proof fn lemma_signs(op: BinaryOp, level: int)
    ensures
        operator_at(level, binary_sign(op)) == if level == level_of(op) && level < 4 {
            Some(op)
        } else {
            None
        },
        binary_sign(op) != "("@,
        (binary_sign(op) == "^"@) == (op == BinaryOp::Pow),
        binary_sign(op).len() >= 1,
        !is_letter(binary_sign(op)[0]),
        binary_sign(op)[0] != '"',
{
    lemma_marks();
    let s = binary_sign(op);
    assert("=="@[0] == '=' && "=="@.len() == 2);
    assert("!="@[0] == '!' && "!="@.len() == 2);
    assert("<="@[0] == '<' && "<="@.len() == 2);
    assert(">="@[0] == '>' && ">="@.len() == 2);
    assert("<"@[0] == '<' && "<"@.len() == 1);
    assert(">"@[0] == '>' && ">"@.len() == 1);
    assert("+"@[0] == '+' && "+"@.len() == 1);
    assert("-"@[0] == '-' && "-"@.len() == 1);
    assert("*"@[0] == '*' && "*"@.len() == 1);
    assert("/"@[0] == '/' && "/"@.len() == 1);
    assert("%"@[0] == '%' && "%"@.len() == 1);
    assert("^"@[0] == '^' && "^"@.len() == 1);
    assert("("@[0] == '(' && "("@.len() == 1);
}

/// A punctuation mark after which no expression goes on is no operator
/// of any level, no `^` and no opening bracket.
pub proof fn lemma_stops(t: Seq<char>, level: int)
    requires
        is_stop(t),
    ensures
        operator_at(level, t) is None,
        t != "^"@,
        t != "("@,
        t != "-"@,
        t != "!"@,
{
    lemma_marks();
    assert(t.len() == 1);
    assert(t[0] == ')' || t[0] == ',' || t[0] == ';' || t[0] == '{');
    assert("=="@.len() == 2 && "!="@.len() == 2 && "<="@.len() == 2 && ">="@.len() == 2);
    assert("<"@[0] == '<' && ">"@[0] == '>' && "+"@[0] == '+' && "-"@[0] == '-');
    assert("*"@[0] == '*' && "/"@[0] == '/' && "%"@[0] == '%' && "^"@[0] == '^');
    assert("("@[0] == '(' && "!"@[0] == '!');
}

/// A name is no sign, no mark, no text between quotes.
pub proof fn lemma_names(t: Seq<char>)
    requires
        is_identifier(t),
    ensures
        t != "("@,
        t != ")"@,
        t != "-"@,
        t != "!"@,
        !is_string_token(t),
{
    lemma_marks();
    assert("("@[0] == '(' && ")"@[0] == ')' && "-"@[0] == '-' && "!"@[0] == '!');
}

/// How long the words of the language are, and how they start.
pub proof fn lemma_keywords()
    ensures
        "let"@.len() == 3 && "let"@[0] == 'l',
        "del"@.len() == 3 && "del"@[0] == 'd',
        "return"@.len() == 6 && "return"@[0] == 'r',
        "if"@.len() == 2 && "if"@[0] == 'i',
        "elif"@.len() == 4 && "elif"@[0] == 'e' && "elif"@[2] == 'i',
        "else"@.len() == 4 && "else"@[0] == 'e' && "else"@[2] == 's',
        "while"@.len() == 5 && "while"@[0] == 'w',
        "for"@.len() == 3 && "for"@[0] == 'f',
        "func"@.len() == 4 && "func"@[0] == 'f',
        "switch"@.len() == 6 && "switch"@[0] == 's' && "switch"@[1] == 'w',
        "case"@.len() == 4 && "case"@[0] == 'c',
        "default"@.len() == 7 && "default"@[0] == 'd',
        "true"@.len() == 4 && "true"@[0] == 't',
        "false"@.len() == 5 && "false"@[0] == 'f' && "false"@[1] == 'a',
{
    reveal_strlit("let");
    reveal_strlit("del");
    reveal_strlit("return");
    reveal_strlit("if");
    reveal_strlit("elif");
    reveal_strlit("else");
    reveal_strlit("while");
    reveal_strlit("for");
    reveal_strlit("func");
    reveal_strlit("switch");
    reveal_strlit("case");
    reveal_strlit("default");
    reveal_strlit("true");
    reveal_strlit("false");
}

/// The name of every type is a name, and it names that type.
pub proof fn lemma_type_names(tag: Type)
    ensures
        is_name(name_of_type(tag)),
        type_of_name(name_of_type(tag)) == tag,
{
    lemma_keywords();
    crate::types::lemma_name_of_type_round_trip(tag);
    reveal_strlit("int");
    reveal_strlit("float");
    reveal_strlit("string");
    reveal_strlit("bool");
    reveal_strlit("void");
    reveal_strlit("list");
    reveal_strlit("tuple");
    let t = name_of_type(tag);
    assert(t.len() >= 3);
    assert forall|i: int| 0 <= i < t.len() implies is_name_char(#[trigger] t[i]) by {
        match tag {
            Type::Int => {
                assert(t == "int"@);
                assert(t[0] == 'i' && t[1] == 'n' && t[2] == 't');
            },
            Type::Float => {
                assert(t == "float"@);
                assert(t[0] == 'f' && t[1] == 'l' && t[2] == 'o' && t[3] == 'a' && t[4] == 't');
            },
            Type::String => {
                assert(t == "string"@);
                assert(t[0] == 's' && t[1] == 't' && t[2] == 'r' && t[3] == 'i' && t[4] == 'n'
                    && t[5] == 'g');
            },
            Type::Boolean => {
                assert(t == "bool"@);
                assert(t[0] == 'b' && t[1] == 'o' && t[2] == 'o' && t[3] == 'l');
            },
            Type::Void => {
                assert(t == "void"@);
                assert(t[0] == 'v' && t[1] == 'o' && t[2] == 'i' && t[3] == 'd');
            },
            Type::List => {
                assert(t == "list"@);
                assert(t[0] == 'l' && t[1] == 'i' && t[2] == 's' && t[3] == 't');
            },
            Type::Tuple => {
                assert(t == "tuple"@);
                assert(t[0] == 't' && t[1] == 'u' && t[2] == 'p' && t[3] == 'l' && t[4] == 'e');
            },
        }
    }
    assert(t[0] == 'i' || t[0] == 'f' || t[0] == 's' || t[0] == 'b' || t[0] == 'v' || t[0] == 'l'
        || t[0] == 't');
    assert(is_letter(t[0]));
    assert(tag == Type::Float ==> t[1] == 'l');
    assert(tag == Type::Int ==> t.len() == 3 && t[0] == 'i');
    assert(tag == Type::String ==> t.len() == 6 && t[1] == 't');
    assert(tag == Type::List ==> t.len() == 4 && t[0] == 'l');
    assert(tag == Type::Tuple ==> t.len() == 5 && t[0] == 't');
    assert("false"@[1] == 'a');
    assert("switch"@[1] == 'w');
    assert(!is_reserved(t));
}

/// A word of the language is no name, no sign and no mark.
pub proof fn lemma_reserved(t: Seq<char>)
    requires
        is_reserved(t),
    ensures
        !is_name(t),
        t.len() >= 2,
        is_letter(t[0]),
        !is_string_token(t),
{
    lemma_keywords();
}

} // verus!
