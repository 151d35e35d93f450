//! Tests on single tokens.

use vstd::prelude::*;
use crate::ast::BinaryOp;
use crate::error_handler::{ErrorHandler, ErrorKind};
use crate::parser::grammar::{
    at,
    expect,
    expect_name,
    is_identifier,
    is_letter,
    is_name,
    is_reserved,
    is_name_char,
    is_string_token,
    operator_at,
};
use crate::text::{from_chars, same_text, texts_view, to_chars};

verus! {

fn letter(c: char) -> (r: bool)
    ensures
        r == is_letter(c),
{
    ('a' <= c && c <= 'z') || ('A' <= c && c <= 'Z') || c == '_'
}

fn name_char(c: char) -> (r: bool)
    ensures
        r == is_name_char(c),
{
    letter(c) || ('0' <= c && c <= '9')
}

/// Whether a token is a word of the language itself.
fn reserved(token: &str) -> (r: bool)
    ensures
        r == is_reserved(token@),
{
    same_text(token, "let") || same_text(token, "del") || same_text(token, "return") || same_text(
        token,
        "if",
    ) || same_text(token, "elif") || same_text(token, "else") || same_text(token, "while")
        || same_text(token, "for") || same_text(token, "func") || same_text(token, "switch")
        || same_text(token, "case") || same_text(token, "default") || same_text(token, "true")
        || same_text(token, "false")
}

/// Whether a token can name a variable, a function or a type.
pub fn is_name_token(token: &str) -> (r: bool)
    ensures
        r == is_name(token@),
{
    written_as_name(token) && !reserved(token)
}

/// Whether a token is written as a name.
fn written_as_name(token: &str) -> (r: bool)
    ensures
        r == is_identifier(token@),
{
    let chars = to_chars(token);
    if chars.len() == 0 || !letter(chars[0]) {
        return false;
    }
    let mut i: usize = 0;
    while i < chars.len()
        invariant
            i <= chars.len(),
            chars@ == token@,
            forall|k: int| 0 <= k < i ==> is_name_char(#[trigger] chars@[k]),
        decreases chars.len() - i,
    {
        if !name_char(chars[i]) {
            return false;
        }
        i = i + 1;
    }
    true
}

/// The text between the quotes of a token, where it is a text between
/// double quotes.
pub fn quoted_text(token: &str) -> (r: Option<String>)
    ensures
        r matches Some(s) ==> is_string_token(token@) && s@ == token@.subrange(
            1,
            token@.len() - 1,
        ),
        r is None ==> !is_string_token(token@),
{
    let chars = to_chars(token);
    let n = chars.len();
    if n < 2 || chars[0] != '"' || chars[n - 1] != '"' {
        return None;
    }
    let mut inner: Vec<char> = Vec::new();
    let mut i: usize = 1;
    while i < n - 1
        invariant
            1 <= i <= n - 1,
            n == chars.len(),
            inner@ == chars@.subrange(1, i as int),
        decreases n - i,
    {
        inner.push(chars[i]);
        assert(chars@.subrange(1, i + 1) == chars@.subrange(1, i as int).push(chars@[i as int]));
        i = i + 1;
    }
    Some(from_chars(&inner))
}

/// Whether the token `offset` places after `pos` is `want`.
pub(crate) fn token_is(tokens: &Vec<String>, pos: usize, offset: usize, want: &str) -> (r: bool)
    requires
        pos <= tokens.len(),
        offset <= 8,
    ensures
        r == at(texts_view(tokens@), pos + offset, want@),
        r ==> pos + offset < tokens.len(),
{
    if offset >= tokens.len() - pos {
        return false;
    }
    assert(texts_view(tokens@)[pos + offset] == tokens[pos + offset]@);
    same_text(tokens[pos + offset].as_str(), want)
}

/// The place after the token `offset` places after `pos`, where that
/// token is `want`.
pub(crate) fn expect_token(tokens: &Vec<String>, pos: usize, offset: usize, want: &str) -> (r: Result<
    usize,
    ErrorHandler,
>)
    requires
        pos <= tokens.len(),
        offset <= 8,
    ensures
        r matches Ok(p) ==> expect(texts_view(tokens@), pos + offset, want@) == Ok::<
            int,
            ErrorKind,
        >(p as int) && p == pos + offset + 1 && p <= tokens.len(),
        r matches Err(e) ==> expect(texts_view(tokens@), pos + offset, want@) == Err::<
            int,
            ErrorKind,
        >(e@),
{
    if offset >= tokens.len() - pos {
        return Err(ErrorHandler::UnexpectedEndOfProgram);
    }
    assert(texts_view(tokens@)[pos + offset] == tokens[pos + offset]@);
    if same_text(tokens[pos + offset].as_str(), want) {
        Ok(pos + offset + 1)
    } else {
        Err(ErrorHandler::UnexpectedToken(String::from_str(want), tokens[pos + offset].clone()))
    }
}

/// The name `offset` places after `pos`.
pub(crate) fn expect_ident(tokens: &Vec<String>, pos: usize, offset: usize) -> (r: Result<
    String,
    ErrorHandler,
>)
    requires
        pos <= tokens.len(),
        offset <= 8,
    ensures
        r matches Ok(name) ==> expect_name(texts_view(tokens@), pos + offset) == Ok::<
            Seq<char>,
            ErrorKind,
        >(name@) && pos + offset < tokens.len(),
        r matches Err(e) ==> expect_name(texts_view(tokens@), pos + offset) == Err::<
            Seq<char>,
            ErrorKind,
        >(e@),
{
    if offset >= tokens.len() - pos {
        return Err(ErrorHandler::UnexpectedEndOfProgram);
    }
    assert(texts_view(tokens@)[pos + offset] == tokens[pos + offset]@);
    if is_name_token(tokens[pos + offset].as_str()) {
        Ok(tokens[pos + offset].clone())
    } else {
        Err(
            ErrorHandler::UnexpectedToken(
                String::from_str("identifier"),
                tokens[pos + offset].clone(),
            ),
        )
    }
}

/// The operator of precedence `level` that a token writes.
pub fn operator_of(level: u8, token: &str) -> (r: Option<BinaryOp>)
    ensures
        r == operator_at(level as int, token@),
{
    if level == 0 {
        if same_text(token, "==") {
            Some(BinaryOp::Eq)
        } else if same_text(token, "!=") {
            Some(BinaryOp::Ne)
        } else {
            None
        }
    } else if level == 1 {
        if same_text(token, "<") {
            Some(BinaryOp::Lt)
        } else if same_text(token, "<=") {
            Some(BinaryOp::Lte)
        } else if same_text(token, ">") {
            Some(BinaryOp::Gt)
        } else if same_text(token, ">=") {
            Some(BinaryOp::Gte)
        } else {
            None
        }
    } else if level == 2 {
        if same_text(token, "+") {
            Some(BinaryOp::Add)
        } else if same_text(token, "-") {
            Some(BinaryOp::Sub)
        } else {
            None
        }
    } else if level == 3 {
        if same_text(token, "*") {
            Some(BinaryOp::Mul)
        } else if same_text(token, "/") {
            Some(BinaryOp::Div)
        } else if same_text(token, "%") {
            Some(BinaryOp::Mod)
        } else {
            None
        }
    } else {
        None
    }
}

} // verus!
