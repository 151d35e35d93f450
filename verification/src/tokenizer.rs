//! The tokenizer: it cuts source text into tokens and drops comments and
//! white space.

use vstd::prelude::*;
use crate::text::{texts_view, to_chars};

verus! {

/// The pattern of one lexeme: a comment, white space, an operator, a
/// punctuation mark, a name, a number or a text between double quotes.
pub const LEXEME: &'static str =
    r#"(?P<multiline_comment>/\*[\s\S]*?\*/)|(?P<singleline_comment>//[^\n]*)|(?P<whitespace>\s+)|(?P<operator>==|!=|<=|>=|[+\-*/%<>^!])|(?P<assign>=)|(?P<colon>:)|(?P<identifier>[a-zA-Z_][a-zA-Z0-9_]*)|(?P<number>\d+(\.\d+)?)|(?P<punctuation>[(){};,])|(?P<string>"([^"\\]|\\.)*")"#;

/// The texts of the successive matches of `pattern` in `input`, as the
/// regex crate finds them; `None` where it refuses the pattern.
pub uninterp spec fn matches_of(pattern: Seq<char>, input: Seq<char>) -> Option<Seq<Seq<char>>>;

/// What the result of a search says.
pub open spec fn found_view(found: Option<Vec<String>>) -> Option<Seq<Seq<char>>> {
    match found {
        Some(texts) => Some(texts_view(texts@)),
        None => None,
    }
}

/// All matches of a pattern in a text: `Regex::new` compiles the
/// pattern, `Regex::find_iter` walks the successive matches that do not
/// overlap, and `Match::as_str` gives the text of each. The contract
/// only names the result.
#[verifier::external_body]
fn find_all(pattern: &str, input: &str) -> (found: Option<Vec<String>>)
    ensures
        found_view(found) == matches_of(pattern@, input@),
{
    let re = regex::Regex::new(pattern).ok()?;
    Some(re.find_iter(input).map(|m| m.as_str().to_string()).collect())
}

/// Whether a token can start with this character.
pub open spec fn starts_token(c: char) -> bool {
    ('a' <= c && c <= 'z') || ('A' <= c && c <= 'Z') || ('0' <= c && c <= '9') || c == '_' || c
        == '"' || c == '+' || c == '-' || c == '*' || c == '/' || c == '%' || c == '<' || c == '>'
        || c == '^' || c == '!' || c == '=' || c == ':' || c == '(' || c == ')' || c == '{' || c
        == '}' || c == ';' || c == ','
}

/// Whether a lexeme is a token: it is no comment and no white space.
pub open spec fn is_token(lexeme: Seq<char>) -> bool {
    &&& lexeme.len() > 0
    &&& starts_token(lexeme[0])
    &&& !(lexeme.len() >= 2 && lexeme[0] == '/' && (lexeme[1] == '*' || lexeme[1] == '/'))
}

/// The tokens among the lexemes, in order.
pub open spec fn tokens_among(lexemes: Seq<Seq<char>>) -> Seq<Seq<char>>
    decreases lexemes.len(),
{
    if lexemes.len() == 0 {
        Seq::empty()
    } else if is_token(lexemes.last()) {
        tokens_among(lexemes.drop_last()).push(lexemes.last())
    } else {
        tokens_among(lexemes.drop_last())
    }
}

/// Every token is a lexeme that is no comment and no white space: it is
/// not empty, and it starts as a name, a number, a text, an operator or
/// a punctuation mark does. There are no more tokens than lexemes.
pub proof fn law_tokens_are_tokens(lexemes: Seq<Seq<char>>)
    ensures
        tokens_among(lexemes).len() <= lexemes.len(),
        forall|i: int|
            0 <= i < tokens_among(lexemes).len() ==> is_token(#[trigger] tokens_among(lexemes)[i]),
    decreases lexemes.len(),
{
    if lexemes.len() > 0 {
        law_tokens_are_tokens(lexemes.drop_last());
    }
}

/// The tokens that a search found; none where the pattern was refused.
pub open spec fn tokens_found(found: Option<Seq<Seq<char>>>) -> Seq<Seq<char>> {
    match found {
        Some(lexemes) => tokens_among(lexemes),
        None => Seq::empty(),
    }
}

fn token_start(c: char) -> (r: bool)
    ensures
        r == starts_token(c),
{
    ('a' <= c && c <= 'z') || ('A' <= c && c <= 'Z') || ('0' <= c && c <= '9') || c == '_' || c
        == '"' || c == '+' || c == '-' || c == '*' || c == '/' || c == '%' || c == '<' || c == '>'
        || c == '^' || c == '!' || c == '=' || c == ':' || c == '(' || c == ')' || c == '{' || c
        == '}' || c == ';' || c == ','
}

/// Whether a lexeme is a token.
pub fn keeps(lexeme: &str) -> (r: bool)
    ensures
        r == is_token(lexeme@),
{
    let chars = to_chars(lexeme);
    if chars.len() == 0 || !token_start(chars[0]) {
        return false;
    }
    !(chars.len() >= 2 && chars[0] == '/' && (chars[1] == '*' || chars[1] == '/'))
}

/// Keeps the tokens among the lexemes: drops comments and white space.
pub fn select_tokens(lexemes: &Vec<String>) -> (tokens: Vec<String>)
    ensures
        texts_view(tokens@) == tokens_among(texts_view(lexemes@)),
{
    let ghost all = texts_view(lexemes@);
    let mut tokens: Vec<String> = Vec::new();
    let mut i: usize = 0;
    assert(texts_view(tokens@) =~= Seq::empty());
    assert(all.take(0) =~= Seq::empty());
    while i < lexemes.len()
        invariant
            i <= lexemes.len(),
            all == texts_view(lexemes@),
            texts_view(tokens@) == tokens_among(all.take(i as int)),
        decreases lexemes.len() - i,
    {
        assert(all.take(i + 1).drop_last() == all.take(i as int));
        assert(all.take(i + 1).last() == lexemes[i as int]@);
        if keeps(lexemes[i].as_str()) {
            let ghost earlier = texts_view(tokens@);
            tokens.push(lexemes[i].clone());
            assert(texts_view(tokens@) =~= earlier.push(lexemes[i as int]@));
        }
        i = i + 1;
    }
    assert(all.take(i as int) == all);
    tokens
}

/// The tokens of a source text, in order, without its comments and its
/// white space.
pub fn tokenize(input: &str) -> (tokens: Vec<String>)
    ensures
        texts_view(tokens@) == tokens_found(matches_of(LEXEME@, input@)),
        forall|i: int| 0 <= i < tokens.len() ==> is_token(#[trigger] tokens[i]@),
{
    match find_all(LEXEME, input) {
        Some(lexemes) => {
            let tokens = select_tokens(&lexemes);
            proof {
                law_tokens_are_tokens(texts_view(lexemes@));
                assert forall|i: int| 0 <= i < tokens.len() implies is_token(
                    #[trigger] tokens[i]@,
                ) by {
                    assert(texts_view(tokens@)[i] == tokens[i]@);
                }
            }
            tokens
        },
        None => {
            let none: Vec<String> = Vec::new();
            assert(texts_view(none@) =~= Seq::empty());
            none
        },
    }
}

} // verus!
