//! The prefix notation: a program as forms in round brackets, an
//! operator followed by its operands. This module cuts such a text into
//! tokens and reads a form from them.

use vstd::prelude::*;
use crate::interp::error_handler::{ErrorHandler, PrefixError};
use crate::text::{from_chars, same_text, texts_view, to_chars};

verus! {

/// A program in prefix form: an operator with its operands in round
/// brackets, a bare word, a text between single quotes, or nothing.
#[derive(Debug, PartialEq, Eq)]
pub enum ASTNode {
    Operator(String, Vec<ASTNode>),
    Value(String),
    StringValue(String),
    NoOp,
}

/// What an [`ASTNode`] says.
pub enum Form {
    Operator(Seq<char>, Seq<Form>),
    Value(Seq<char>),
    StringValue(Seq<char>),
    NoOp,
}

/// What a list of nodes says.
pub open spec fn forms_view(nodes: Seq<ASTNode>) -> Seq<Form>
    decreases nodes,
{
    Seq::new(
        nodes.len(),
        |i: int|
            if 0 <= i < nodes.len() {
                form_view(nodes[i])
            } else {
                Form::NoOp
            },
    )
}

/// What a node says.
pub open spec fn form_view(node: ASTNode) -> Form
    decreases node,
{
    match node {
        ASTNode::Operator(name, operands) => Form::Operator(name@, forms_view(operands@)),
        ASTNode::Value(word) => Form::Value(word@),
        ASTNode::StringValue(text) => Form::StringValue(text@),
        ASTNode::NoOp => Form::NoOp,
    }
}

impl View for ASTNode {
    type V = Form;

    open spec fn view(&self) -> Form {
        form_view(*self)
    }
}

/// A copy of a list of nodes.
pub fn clone_forms(nodes: &Vec<ASTNode>) -> (copies: Vec<ASTNode>)
    ensures
        forms_view(copies@) == forms_view(nodes@),
    decreases nodes,
{
    let mut copies: Vec<ASTNode> = Vec::new();
    let mut i: usize = 0;
    while i < nodes.len()
        invariant
            i <= nodes.len(),
            copies.len() == i,
            forall|k: int| 0 <= k < i ==> form_view(#[trigger] copies[k]) == form_view(nodes[k]),
        decreases nodes.len() - i,
    {
        copies.push(clone_form(&nodes[i]));
        i = i + 1;
    }
    assert(forms_view(copies@) =~= forms_view(nodes@));
    copies
}

/// A copy of a node with everything below it.
pub fn clone_form(node: &ASTNode) -> (copy: ASTNode)
    ensures
        copy@ == node@,
    decreases node,
{
    match node {
        ASTNode::Operator(name, operands) => ASTNode::Operator(name.clone(), clone_forms(operands)),
        ASTNode::Value(word) => ASTNode::Value(word.clone()),
        ASTNode::StringValue(text) => ASTNode::StringValue(text.clone()),
        ASTNode::NoOp => ASTNode::NoOp,
    }
}

impl Clone for ASTNode {
    fn clone(&self) -> (copy: Self)
        ensures
            copy@ == self@,
    {
        clone_form(self)
    }
}

/// Where the scanner stands: the tokens that are complete, the token
/// that is being read, and whether it is a text between quotes.
pub struct Scan {
    pub tokens: Seq<Seq<char>>,
    pub token: Seq<char>,
    pub in_string: bool,
}

/// The tokens with the token that is being read, where there is one.
pub open spec fn flushed(s: Scan) -> Seq<Seq<char>> {
    if s.token.len() > 0 {
        s.tokens.push(s.token)
    } else {
        s.tokens
    }
}

/// The scanner after one more character. Outside a text, a round
/// bracket is a token of its own and ends the token before it, and a
/// blank, a line feed or a tab only ends it. A single quote opens a
/// text, which runs to the next single quote, both included. Every
/// other character goes into the token that is being read.
pub open spec fn scan_step(s: Scan, c: char) -> Scan {
    if (c == '(' || c == ')') && !s.in_string {
        Scan { tokens: flushed(s).push(seq![c]), token: Seq::empty(), in_string: false }
    } else if c == '\'' {
        if s.in_string {
            Scan { tokens: s.tokens.push(s.token.push(c)), token: Seq::empty(), in_string: false }
        } else {
            Scan { tokens: flushed(s), token: seq![c], in_string: true }
        }
    } else if (c == ' ' || c == '\n' || c == '\t') && !s.in_string {
        Scan { tokens: flushed(s), token: Seq::empty(), in_string: false }
    } else {
        Scan { token: s.token.push(c), ..s }
    }
}

/// The scanner after a text.
pub open spec fn scan(text: Seq<char>) -> Scan
    decreases text.len(),
{
    if text.len() == 0 {
        Scan { tokens: Seq::empty(), token: Seq::empty(), in_string: false }
    } else {
        scan_step(scan(text.drop_last()), text.last())
    }
}

/// The tokens of a program in prefix form.
pub open spec fn prefix_tokens(text: Seq<char>) -> Seq<Seq<char>> {
    flushed(scan(text))
}

/// Cuts a program in prefix form into its tokens.
pub fn tokenize(expr: &str) -> (tokens: Vec<String>)
    ensures
        texts_view(tokens@) == prefix_tokens(expr@),
{
    let chars = to_chars(expr);
    let mut tokens: Vec<String> = Vec::new();
    let mut token: Vec<char> = Vec::new();
    let mut in_string = false;
    let mut i: usize = 0;
    assert(texts_view(tokens@) =~= Seq::empty());
    assert(chars@.take(0) =~= Seq::empty());
    while i < chars.len()
        invariant
            i <= chars.len(),
            scan(chars@.take(i as int)) == (Scan {
                tokens: texts_view(tokens@),
                token: token@,
                in_string,
            }),
        decreases chars.len() - i,
    {
        let c = chars[i];
        assert(chars@.take(i + 1).drop_last() == chars@.take(i as int));
        assert(chars@.take(i + 1).last() == c);
        let ghost before = texts_view(tokens@);
        if (c == '(' || c == ')') && !in_string {
            if token.len() > 0 {
                let t = from_chars(&token);
                tokens.push(t);
                token = Vec::new();
            }
            let ghost middle = texts_view(tokens@);
            let mut one: Vec<char> = Vec::new();
            one.push(c);
            let t = from_chars(&one);
            tokens.push(t);
            assert(one@ =~= seq![c]);
            assert(texts_view(tokens@) =~= middle.push(seq![c]));
            assert(middle =~= flushed(scan(chars@.take(i as int))));
        } else if c == '\'' {
            if in_string {
                token.push(c);
                let t = from_chars(&token);
                tokens.push(t);
                assert(texts_view(tokens@) =~= before.push(token@));
                token = Vec::new();
                in_string = false;
            } else {
                if token.len() > 0 {
                    let t = from_chars(&token);
                    tokens.push(t);
                    token = Vec::new();
                }
                assert(texts_view(tokens@) =~= flushed(scan(chars@.take(i as int))));
                token.push(c);
                assert(token@ =~= seq![c]);
                in_string = true;
            }
        } else if (c == ' ' || c == '\n' || c == '\t') && !in_string {
            if token.len() > 0 {
                let t = from_chars(&token);
                tokens.push(t);
                token = Vec::new();
            }
            assert(texts_view(tokens@) =~= flushed(scan(chars@.take(i as int))));
        } else {
            token.push(c);
        }
        i = i + 1;
    }
    assert(chars@.take(i as int) == chars@);
    let ghost before = texts_view(tokens@);
    if token.len() > 0 {
        let t = from_chars(&token);
        tokens.push(t);
        assert(texts_view(tokens@) =~= before.push(token@));
    }
    tokens
}

/// Whether a token is a text between single quotes.
pub open spec fn is_quoted(t: Seq<char>) -> bool {
    t.len() >= 2 && t[0] == '\'' && t[t.len() - 1] == '\''
}

/// A parsed form and the place of the token after it.
pub type ParsedForm = Result<(Form, int), PrefixError>;

/// The form that starts at `pos`: an opening bracket, an operator, its
/// operands and a closing bracket; an empty pair of brackets is
/// nothing.
pub open spec fn parse_form(toks: Seq<Seq<char>>, pos: int) -> ParsedForm
    decreases toks.len() - pos, 0nat,
{
    if pos < 0 || pos >= toks.len() {
        Err(PrefixError::ParseError("Empty expression"@))
    } else if toks[pos] != "("@ {
        Err(PrefixError::ParseError("Expected '('. Good luck!"@))
    } else if pos + 1 >= toks.len() {
        Err(PrefixError::ParseError("Expected ')'. Good luck!"@))
    } else if toks[pos + 1] == ")"@ {
        Ok((Form::NoOp, pos + 2))
    } else {
        match parse_operands(toks, pos + 2, Seq::empty()) {
            Ok((operands, next)) => Ok((Form::Operator(toks[pos + 1], operands), next)),
            Err(e) => Err(e),
        }
    }
}

/// The operands from `pos` on, up to the closing bracket; `before`
/// holds the operands already read.
pub open spec fn parse_operands(toks: Seq<Seq<char>>, pos: int, before: Seq<Form>) -> Result<
    (Seq<Form>, int),
    PrefixError,
>
    decreases toks.len() - pos, 1nat,
{
    if pos < 0 || pos >= toks.len() {
        Err(PrefixError::ParseError("Expected ')'. Good luck!"@))
    } else if toks[pos] == ")"@ {
        Ok((before, pos + 1))
    } else if toks[pos] == "("@ {
        match parse_form(toks, pos) {
            Ok((form, next)) => if pos < next <= toks.len() {
                parse_operands(toks, next, before.push(form))
            } else {
                Err(PrefixError::ParseError("Expected ')'. Good luck!"@))
            },
            Err(e) => Err(e),
        }
    } else if is_quoted(toks[pos]) {
        parse_operands(
            toks,
            pos + 1,
            before.push(Form::StringValue(toks[pos].subrange(1, toks[pos].len() - 1))),
        )
    } else {
        parse_operands(toks, pos + 1, before.push(Form::Value(toks[pos])))
    }
}

/// The text between the quotes of a token, where it is a text between
/// single quotes.
fn unquoted(token: &str) -> (r: Option<String>)
    ensures
        r matches Some(s) ==> is_quoted(token@) && s@ == token@.subrange(1, token@.len() - 1),
        r is None ==> !is_quoted(token@),
{
    let chars = to_chars(token);
    let n = chars.len();
    if n < 2 || chars[0] != '\'' || chars[n - 1] != '\'' {
        return None;
    }
    let mut inner: Vec<char> = Vec::new();
    let mut i: usize = 1;
    while i < n - 1
        invariant
            1 <= i <= n - 1,
            n == chars.len(),
            inner@ == chars@.subrange(1, i as int),
        decreases n - i,
    {
        inner.push(chars[i]);
        assert(chars@.subrange(1, i + 1) == chars@.subrange(1, i as int).push(chars@[i as int]));
        i = i + 1;
    }
    Some(from_chars(&inner))
}

/// Reads the operands from `pos` on.
fn read_operands(tokens: &Vec<String>, pos: usize, before: Vec<ASTNode>) -> (r: Result<
    (Vec<ASTNode>, usize),
    ErrorHandler,
>)
    requires
        pos <= tokens.len(),
    ensures
        ({
            let m = parse_operands(texts_view(tokens@), pos as int, forms_view(before@));
            match r {
                Ok((operands, next)) => m == Ok::<(Seq<Form>, int), PrefixError>(
                    (forms_view(operands@), next as int),
                ) && pos < next <= tokens.len(),
                Err(e) => m == Err::<(Seq<Form>, int), PrefixError>(e@),
            }
        }),
    decreases tokens.len() - pos, 1nat,
{
    let ghost toks = texts_view(tokens@);
    if pos >= tokens.len() {
        return Err(ErrorHandler::ParseError(String::from_str("Expected ')'. Good luck!")));
    }
    assert(toks[pos as int] == tokens[pos as int]@);
    let t: &String = &tokens[pos];
    if same_text(t.as_str(), ")") {
        return Ok((before, pos + 1));
    }
    let mut operands = before;
    let ghost earlier = forms_view(operands@);
    if same_text(t.as_str(), "(") {
        let (form, next) = match read_form(tokens, pos) {
            Ok(x) => x,
            Err(e) => {
                return Err(e);
            },
        };
        operands.push(form);
        assert(forms_view(operands@) =~= earlier.push(form@));
        return read_operands(tokens, next, operands);
    }
    match unquoted(t.as_str()) {
        Some(text) => {
            operands.push(ASTNode::StringValue(text));
            assert(forms_view(operands@) =~= earlier.push(Form::StringValue(text@)));
        },
        None => {
            operands.push(ASTNode::Value(t.clone()));
            assert(forms_view(operands@) =~= earlier.push(Form::Value(t@)));
        },
    }
    read_operands(tokens, pos + 1, operands)
}

/// Reads the form that starts at `pos`.
fn read_form(tokens: &Vec<String>, pos: usize) -> (r: Result<(ASTNode, usize), ErrorHandler>)
    requires
        pos <= tokens.len(),
    ensures
        ({
            let m = parse_form(texts_view(tokens@), pos as int);
            match r {
                Ok((node, next)) => m == Ok::<(Form, int), PrefixError>((node@, next as int))
                    && pos < next <= tokens.len(),
                Err(e) => m == Err::<(Form, int), PrefixError>(e@),
            }
        }),
    decreases tokens.len() - pos, 0nat,
{
    let ghost toks = texts_view(tokens@);
    if pos >= tokens.len() {
        return Err(ErrorHandler::ParseError(String::from_str("Empty expression")));
    }
    assert(toks[pos as int] == tokens[pos as int]@);
    if !same_text(tokens[pos].as_str(), "(") {
        return Err(ErrorHandler::ParseError(String::from_str("Expected '('. Good luck!")));
    }
    if pos + 1 >= tokens.len() {
        return Err(ErrorHandler::ParseError(String::from_str("Expected ')'. Good luck!")));
    }
    assert(toks[pos + 1] == tokens[pos + 1]@);
    if same_text(tokens[pos + 1].as_str(), ")") {
        return Ok((ASTNode::NoOp, pos + 2));
    }
    let before: Vec<ASTNode> = Vec::new();
    assert(forms_view(before@) =~= Seq::empty());
    match read_operands(tokens, pos + 2, before) {
        Ok((operands, next)) => Ok((ASTNode::Operator(tokens[pos + 1].clone(), operands), next)),
        Err(e) => Err(e),
    }
}

/// Reads the first form of a program in prefix form. Gives the form and
/// the number of tokens that it takes.
pub fn parse(tokens: &Vec<String>) -> (r: Result<(ASTNode, usize), ErrorHandler>)
    ensures
        r matches Ok((node, used)) ==> parse_form(texts_view(tokens@), 0) == Ok::<
            (Form, int),
            PrefixError,
        >((node@, used as int)) && 0 < used <= tokens.len(),
        r matches Err(e) ==> parse_form(texts_view(tokens@), 0) == Err::<(Form, int), PrefixError>(
            e@,
        ),
{
    read_form(tokens, 0)
}

} // verus!
