//! The functions that the language brings with it.

use vstd::prelude::*;
use vstd::utf8::encode_utf8;
use crate::error_handler::{ErrorHandler, ErrorKind};
use crate::interp::variable_value::{number_of, text_of, value_text, Value, VariableValue};
use crate::number::{checked, trunc_div, Number, SCALE};
use crate::text::{
    from_chars,
    lowercase_of,
    same_text,
    to_chars,
    to_lower,
    to_upper,
    uppercase_of,
};

verus! {

/// The functions that the language brings with it.
#[derive(Debug, Clone, Copy, PartialEq, Eq, Structural)]
pub enum Builtin {
    Max,
    Min,
    And,
    Or,
    Concat,
    Len,
    Substring,
    Strip,
    Replace,
    Upper,
    Lower,
    Print,
    Exit,
    Debug,
}

/// The built-in function that a name stands for.
pub open spec fn builtin_of(name: Seq<char>) -> Option<Builtin> {
    if name == "max"@ {
        Some(Builtin::Max)
    } else if name == "min"@ {
        Some(Builtin::Min)
    } else if name == "and"@ {
        Some(Builtin::And)
    } else if name == "or"@ {
        Some(Builtin::Or)
    } else if name == "concat"@ {
        Some(Builtin::Concat)
    } else if name == "len"@ {
        Some(Builtin::Len)
    } else if name == "substring"@ {
        Some(Builtin::Substring)
    } else if name == "strip"@ {
        Some(Builtin::Strip)
    } else if name == "replace"@ {
        Some(Builtin::Replace)
    } else if name == "upper"@ {
        Some(Builtin::Upper)
    } else if name == "lower"@ {
        Some(Builtin::Lower)
    } else if name == "print"@ {
        Some(Builtin::Print)
    } else if name == "exit"@ {
        Some(Builtin::Exit)
    } else if name == "debug"@ {
        Some(Builtin::Debug)
    } else {
        None
    }
}

/// The built-in function that `name` stands for, if any.
pub fn find_builtin(name: &str) -> (b: Option<Builtin>)
    ensures
        b == builtin_of(name@),
{
    if same_text(name, "max") {
        Some(Builtin::Max)
    } else if same_text(name, "min") {
        Some(Builtin::Min)
    } else if same_text(name, "and") {
        Some(Builtin::And)
    } else if same_text(name, "or") {
        Some(Builtin::Or)
    } else if same_text(name, "concat") {
        Some(Builtin::Concat)
    } else if same_text(name, "len") {
        Some(Builtin::Len)
    } else if same_text(name, "substring") {
        Some(Builtin::Substring)
    } else if same_text(name, "strip") {
        Some(Builtin::Strip)
    } else if same_text(name, "replace") {
        Some(Builtin::Replace)
    } else if same_text(name, "upper") {
        Some(Builtin::Upper)
    } else if same_text(name, "lower") {
        Some(Builtin::Lower)
    } else if same_text(name, "print") {
        Some(Builtin::Print)
    } else if same_text(name, "exit") {
        Some(Builtin::Exit)
    } else if same_text(name, "debug") {
        Some(Builtin::Debug)
    } else {
        None
    }
}

/// The fewest arguments that a built-in function takes.
pub open spec fn least_arguments(b: Builtin) -> nat {
    match b {
        Builtin::Max => 1,
        Builtin::Min => 1,
        Builtin::And => 2,
        Builtin::Or => 2,
        Builtin::Concat => 0,
        Builtin::Len => 1,
        Builtin::Substring => 3,
        Builtin::Strip => 2,
        Builtin::Replace => 3,
        Builtin::Upper => 1,
        Builtin::Lower => 1,
        Builtin::Print => 0,
        Builtin::Exit => 1,
        Builtin::Debug => 0,
    }
}

/// Whether a built-in function takes any number of arguments from its
/// least on.
pub open spec fn is_variadic(b: Builtin) -> bool {
    b == Builtin::Max || b == Builtin::Min || b == Builtin::And || b == Builtin::Or || b
        == Builtin::Concat || b == Builtin::Print
}

/// The error for a call of `b`, written `name`, with `count` arguments,
/// where that is the wrong number.
pub open spec fn arity_error(b: Builtin, name: Seq<char>, count: nat) -> Option<ErrorKind> {
    if count < least_arguments(b) {
        Some(ErrorKind::TooFewArguments(name))
    } else if count > least_arguments(b) && !is_variadic(b) {
        Some(ErrorKind::TooManyArguments(name))
    } else {
        None
    }
}

/// The error, if any, for a call of `b` with `count` arguments.
pub fn check_arity(b: Builtin, name: &String, count: usize) -> (r: Option<ErrorHandler>)
    ensures
        r matches Some(e) ==> arity_error(b, name@, count as nat) == Some(e@),
        r is None ==> arity_error(b, name@, count as nat) is None,
{
    let least: usize = match b {
        Builtin::Max => 1,
        Builtin::Min => 1,
        Builtin::And => 2,
        Builtin::Or => 2,
        Builtin::Concat => 0,
        Builtin::Len => 1,
        Builtin::Substring => 3,
        Builtin::Strip => 2,
        Builtin::Replace => 3,
        Builtin::Upper => 1,
        Builtin::Lower => 1,
        Builtin::Print => 0,
        Builtin::Exit => 1,
        Builtin::Debug => 0,
    };
    let variadic = match b {
        Builtin::Max => true,
        Builtin::Min => true,
        Builtin::And => true,
        Builtin::Or => true,
        Builtin::Concat => true,
        Builtin::Print => true,
        _ => false,
    };
    if count < least {
        Some(ErrorHandler::TooFewArguments(name.clone()))
    } else if count > least && !variadic {
        Some(ErrorHandler::TooManyArguments(name.clone()))
    } else {
        None
    }
}

/// What a list of values says.
pub open spec fn values_view(values: Seq<VariableValue>) -> Seq<Value> {
    Seq::new(values.len(), |i: int| values[i]@)
}

/// The largest (`largest`) or smallest of the numbers from `from` on
/// and `best`, scanning left to right; a text among them is an error.
pub open spec fn extreme(values: Seq<Value>, from: int, best: int, largest: bool) -> Result<
    int,
    ErrorKind,
>
    decreases values.len() - from,
{
    if 0 <= from < values.len() {
        match number_of(values[from]) {
            Err(e) => Err(e),
            Ok(n) => extreme(
                values,
                from + 1,
                if (largest && n > best) || (!largest && n < best) {
                    n
                } else {
                    best
                },
                largest,
            ),
        }
    } else {
        Ok(best)
    }
}

/// The texts of the values, one after another.
pub open spec fn concat_text(values: Seq<Value>) -> Seq<char>
    decreases values.len(),
{
    if values.len() == 0 {
        Seq::empty()
    } else {
        concat_text(values.drop_last()) + value_text(values.last())
    }
}

/// The texts of the values with one space between each two.
pub open spec fn spaced(values: Seq<Value>) -> Seq<char>
    decreases values.len(),
{
    if values.len() == 0 {
        Seq::empty()
    } else if values.len() == 1 {
        value_text(values[0])
    } else {
        spaced(values.drop_last()) + seq![' '] + value_text(values.last())
    }
}

/// A whole number of characters: the whole part of `units`, zero where
/// that is negative.
pub open spec fn count_of(units: int) -> int {
    let n = trunc_div(units, SCALE as int);
    if n < 0 {
        0
    } else {
        n
    }
}

/// The characters of `text` from place `start` to place `end`, both
/// counted from zero and both included, as far as the text goes.
pub open spec fn substring_of(text: Seq<char>, start: int, end: int) -> Seq<char> {
    let skip = count_of(start);
    let count = count_of(end - start + SCALE);
    let lo = if skip < text.len() {
        skip
    } else {
        text.len() as int
    };
    let hi = if skip + count < text.len() {
        skip + count
    } else {
        text.len() as int
    };
    text.subrange(lo, hi)
}

/// `text` without the characters that occur in `chars`.
pub open spec fn stripped(text: Seq<char>, chars: Seq<char>) -> Seq<char>
    decreases text.len(),
{
    if text.len() == 0 {
        Seq::empty()
    } else if chars.contains(text.last()) {
        stripped(text.drop_last(), chars)
    } else {
        stripped(text.drop_last(), chars).push(text.last())
    }
}

/// `text` with every `old` turned into `new`.
pub open spec fn replaced(text: Seq<char>, old: char, new: char) -> Seq<char> {
    Seq::new(
        text.len(),
        |i: int|
            if text[i] == old {
                new
            } else {
                text[i]
            },
    )
}

/// The exit code that a number asks for: its whole part, held to the
/// range of 32 bits.
pub open spec fn exit_code(units: int) -> int {
    let n = trunc_div(units, SCALE as int);
    if n < i32::MIN {
        i32::MIN as int
    } else if n > i32::MAX {
        i32::MAX as int
    } else {
        n
    }
}

/// The number of bytes that a text takes in UTF-8, as the machine
/// counts it.
pub open spec fn byte_length(text: Seq<char>) -> int {
    (encode_utf8(text).len() as usize) as int
}

/// What a built-in function that only computes makes of its arguments.
/// The number of arguments is right for `b`.
pub open spec fn builtin_value(b: Builtin, values: Seq<Value>) -> Result<Value, ErrorKind> {
    match b {
        Builtin::Max => match number_of(values[0]) {
            Err(e) => Err(e),
            Ok(first) => match extreme(values, 1, first, true) {
                Ok(n) => Ok(Value::Number(n)),
                Err(e) => Err(e),
            },
        },
        Builtin::Min => match number_of(values[0]) {
            Err(e) => Err(e),
            Ok(first) => match extreme(values, 1, first, false) {
                Ok(n) => Ok(Value::Number(n)),
                Err(e) => Err(e),
            },
        },
        Builtin::Concat => Ok(Value::Text(concat_text(values))),
        Builtin::Len => match text_of(values[0]) {
            Err(e) => Err(e),
            Ok(t) => match checked(byte_length(t) * SCALE) {
                Some(u) => Ok(Value::Number(u)),
                None => Err(ErrorKind::NumberOutOfRange),
            },
        },
        Builtin::Substring => match text_of(values[0]) {
            Err(e) => Err(e),
            Ok(t) => match number_of(values[1]) {
                Err(e) => Err(e),
                Ok(start) => match number_of(values[2]) {
                    Err(e) => Err(e),
                    Ok(end) => Ok(Value::Text(substring_of(t, start, end))),
                },
            },
        },
        Builtin::Strip => match text_of(values[0]) {
            Err(e) => Err(e),
            Ok(t) => match text_of(values[1]) {
                Err(e) => Err(e),
                Ok(chars) => Ok(Value::Text(stripped(t, chars))),
            },
        },
        Builtin::Replace => match text_of(values[0]) {
            Err(e) => Err(e),
            Ok(t) => match text_of(values[1]) {
                Err(e) => Err(e),
                Ok(old) => match text_of(values[2]) {
                    Err(e) => Err(e),
                    Ok(new) => if old.len() == 0 || new.len() == 0 {
                        Err(ErrorKind::SyntaxError("Expected a character"@))
                    } else {
                        Ok(Value::Text(replaced(t, old[0], new[0])))
                    },
                },
            },
        },
        Builtin::Upper => match text_of(values[0]) {
            Err(e) => Err(e),
            Ok(t) => Ok(Value::Text(uppercase_of(t))),
        },
        Builtin::Lower => match text_of(values[0]) {
            Err(e) => Err(e),
            Ok(t) => Ok(Value::Text(lowercase_of(t))),
        },
        _ => Err(ErrorKind::SyntaxError("Expected a value"@)),
    }
}

/// Whether `c` occurs in `chars`.
fn has_char(chars: &Vec<char>, c: char) -> (r: bool)
    ensures
        r == chars@.contains(c),
{
    let mut i: usize = 0;
    while i < chars.len()
        invariant
            i <= chars.len(),
            forall|k: int| 0 <= k < i ==> chars@[k] != c,
        decreases chars.len() - i,
    {
        if chars[i] == c {
            return true;
        }
        i = i + 1;
    }
    false
}

/// The largest or smallest number of `values`.
fn extreme_of(values: &Vec<VariableValue>, largest: bool) -> (r: Result<Number, ErrorHandler>)
    requires
        values.len() >= 1,
    ensures
        r matches Ok(n) ==> builtin_value(
            if largest {
                Builtin::Max
            } else {
                Builtin::Min
            },
            values_view(values@),
        ) == Ok::<Value, ErrorKind>(Value::Number(n@)),
        r matches Err(e) ==> builtin_value(
            if largest {
                Builtin::Max
            } else {
                Builtin::Min
            },
            values_view(values@),
        ) == Err::<Value, ErrorKind>(e@),
{
    let ghost vals = values_view(values@);
    assert(vals[0] == values[0]@);
    let mut best = match values[0].as_number() {
        Ok(n) => n,
        Err(e) => {
            return Err(e);
        },
    };
    let ghost first = best@;
    let mut i: usize = 1;
    while i < values.len()
        invariant
            1 <= i <= values.len(),
            vals == values_view(values@),
            number_of(vals[0]) == Ok::<int, ErrorKind>(first),
            extreme(vals, 1, first, largest) == extreme(vals, i as int, best@, largest),
        decreases values.len() - i,
    {
        assert(vals[i as int] == values[i as int]@);
        match values[i].as_number() {
            Err(e) => {
                return Err(e);
            },
            Ok(n) => {
                if (largest && best.less_than(&n)) || (!largest && n.less_than(&best)) {
                    best = n;
                }
            },
        }
        i = i + 1;
    }
    Ok(best)
}

/// The texts of `values`, one after another.
fn concat_values(values: &Vec<VariableValue>) -> (s: String)
    ensures
        s@ == concat_text(values_view(values@)),
{
    let ghost vals = values_view(values@);
    let mut out = String::new();
    let mut i: usize = 0;
    while i < values.len()
        invariant
            i <= values.len(),
            vals == values_view(values@),
            out@ == concat_text(vals.take(i as int)),
        decreases values.len() - i,
    {
        let piece = values[i].to_string();
        out.append(piece.as_str());
        assert(vals.take(i + 1).drop_last() == vals.take(i as int));
        i = i + 1;
    }
    assert(vals.take(i as int) == vals);
    out
}

/// The texts of `values` with one space between each two.
pub fn spaced_values(values: &Vec<VariableValue>) -> (s: String)
    ensures
        s@ == spaced(values_view(values@)),
{
    let ghost vals = values_view(values@);
    let mut out = String::new();
    let mut i: usize = 0;
    while i < values.len()
        invariant
            i <= values.len(),
            vals == values_view(values@),
            out@ == spaced(vals.take(i as int)),
        decreases values.len() - i,
    {
        let piece = values[i].to_string();
        if i > 0 {
            out.append(" ");
            proof {
                reveal_strlit(" ");
                assert(" "@ == seq![' ']);
            }
        }
        out.append(piece.as_str());
        assert(vals.take(i + 1).drop_last() == vals.take(i as int));
        assert(vals.take(i + 1).last() == vals[i as int]);
        i = i + 1;
    }
    assert(vals.take(i as int) == vals);
    out
}

/// The whole part of `units` as a count, zero where it is negative.
fn count_from(units: i128) -> (n: i128)
    requires
        i128::MIN < units,
    ensures
        n == count_of(units as int),
        0 <= n,
{
    let n: i128 = if units >= 0 {
        units / SCALE
    } else {
        let q: i128 = (-units) / SCALE;
        -q
    };
    if n < 0 {
        0
    } else {
        n
    }
}

/// The part of `text` from place `start` to place `end`.
fn substring(text: &String, start: &Number, end: &Number) -> (s: String)
    ensures
        s@ == substring_of(text@, start@, end@),
{
    let chars = to_chars(text.as_str());
    let skip = count_from(start.units());
    let count = count_from(end.units() - start.units() + SCALE);
    let len: usize = chars.len();
    let lo: usize = if skip < len as i128 {
        skip as usize
    } else {
        len
    };
    let hi: usize = if skip + count < len as i128 {
        (skip + count) as usize
    } else {
        len
    };
    let mut out: Vec<char> = Vec::new();
    let mut i: usize = lo;
    while i < hi
        invariant
            lo <= i <= hi,
            hi <= chars.len(),
            out@ == chars@.subrange(lo as int, i as int),
        decreases hi - i,
    {
        out.push(chars[i]);
        assert(chars@.subrange(lo as int, i + 1) == chars@.subrange(lo as int, i as int).push(
            chars@[i as int],
        ));
        i = i + 1;
    }
    from_chars(&out)
}

/// `text` without the characters of `chars`.
fn strip(text: &String, chars: &String) -> (s: String)
    ensures
        s@ == stripped(text@, chars@),
{
    let t = to_chars(text.as_str());
    let c = to_chars(chars.as_str());
    let mut out: Vec<char> = Vec::new();
    let mut i: usize = 0;
    while i < t.len()
        invariant
            i <= t.len(),
            out@ == stripped(t@.take(i as int), c@),
        decreases t.len() - i,
    {
        assert(t@.take(i + 1).drop_last() == t@.take(i as int));
        if !has_char(&c, t[i]) {
            out.push(t[i]);
        }
        i = i + 1;
    }
    assert(t@.take(i as int) == t@);
    from_chars(&out)
}

/// `text` with every `old` turned into `new`.
fn replace(text: &String, old: char, new: char) -> (s: String)
    ensures
        s@ == replaced(text@, old, new),
{
    let t = to_chars(text.as_str());
    let mut out: Vec<char> = Vec::new();
    let mut i: usize = 0;
    while i < t.len()
        invariant
            i <= t.len(),
            out.len() == i,
            forall|k: int| 0 <= k < i ==> out@[k] == replaced(t@, old, new)[k],
        decreases t.len() - i,
    {
        if t[i] == old {
            out.push(new);
        } else {
            out.push(t[i]);
        }
        i = i + 1;
    }
    assert(out@ =~= replaced(t@, old, new));
    from_chars(&out)
}

/// The argument at `i` as a text.
fn text_at(values: &Vec<VariableValue>, i: usize) -> (r: Result<&String, ErrorHandler>)
    requires
        i < values.len(),
    ensures
        r matches Ok(t) ==> text_of(values_view(values@)[i as int]) == Ok::<Seq<char>, ErrorKind>(
            t@,
        ),
        r matches Err(e) ==> text_of(values_view(values@)[i as int]) == Err::<
            Seq<char>,
            ErrorKind,
        >(e@),
{
    values[i].as_text()
}

/// The argument at `i` as a number.
fn number_at(values: &Vec<VariableValue>, i: usize) -> (r: Result<Number, ErrorHandler>)
    requires
        i < values.len(),
    ensures
        r matches Ok(n) ==> number_of(values_view(values@)[i as int]) == Ok::<int, ErrorKind>(n@),
        r matches Err(e) ==> number_of(values_view(values@)[i as int]) == Err::<int, ErrorKind>(
            e@,
        ),
{
    values[i].as_number()
}

/// Applies a built-in function that only computes. The number of
/// arguments is right for `b`.
pub(crate) fn compute_builtin(b: Builtin, values: &Vec<VariableValue>) -> (r: Result<
    VariableValue,
    ErrorHandler,
>)
    requires
        arity_error(b, Seq::empty(), values.len() as nat) is None,
    ensures
        r matches Ok(v) ==> builtin_value(b, values_view(values@)) == Ok::<Value, ErrorKind>(v@),
        r matches Err(e) ==> builtin_value(b, values_view(values@)) == Err::<Value, ErrorKind>(
            e@,
        ),
{
    match b {
        Builtin::Max => match extreme_of(values, true) {
            Ok(n) => Ok(VariableValue::Number(n)),
            Err(e) => Err(e),
        },
        Builtin::Min => match extreme_of(values, false) {
            Ok(n) => Ok(VariableValue::Number(n)),
            Err(e) => Err(e),
        },
        Builtin::Concat => Ok(VariableValue::Text(concat_values(values))),
        Builtin::Len => {
            let t = match text_at(values, 0) {
                Ok(t) => t,
                Err(e) => {
                    return Err(e);
                },
            };
            let n: usize = t.as_str().len();
            match Number::from_units((n as i128) * SCALE) {
                Some(u) => {
                    Ok(VariableValue::Number(u))
                },
                None => Err(ErrorHandler::NumberOutOfRange),
            }
        },
        Builtin::Substring => {
            let t = match text_at(values, 0) {
                Ok(t) => t,
                Err(e) => {
                    return Err(e);
                },
            };
            let start = match number_at(values, 1) {
                Ok(n) => n,
                Err(e) => {
                    return Err(e);
                },
            };
            let end = match number_at(values, 2) {
                Ok(n) => n,
                Err(e) => {
                    return Err(e);
                },
            };
            Ok(VariableValue::Text(substring(t, &start, &end)))
        },
        Builtin::Strip => {
            let t = match text_at(values, 0) {
                Ok(t) => t,
                Err(e) => {
                    return Err(e);
                },
            };
            let chars = match text_at(values, 1) {
                Ok(t) => t,
                Err(e) => {
                    return Err(e);
                },
            };
            Ok(VariableValue::Text(strip(t, chars)))
        },
        Builtin::Replace => {
            let t = match text_at(values, 0) {
                Ok(t) => t,
                Err(e) => {
                    return Err(e);
                },
            };
            let old = match text_at(values, 1) {
                Ok(t) => t,
                Err(e) => {
                    return Err(e);
                },
            };
            let new = match text_at(values, 2) {
                Ok(t) => t,
                Err(e) => {
                    return Err(e);
                },
            };
            let o = to_chars(old.as_str());
            let n = to_chars(new.as_str());
            if o.len() == 0 || n.len() == 0 {
                Err(ErrorHandler::SyntaxError(String::from_str("Expected a character")))
            } else {
                Ok(VariableValue::Text(replace(t, o[0], n[0])))
            }
        },
        Builtin::Upper => match text_at(values, 0) {
            Ok(t) => Ok(VariableValue::Text(to_upper(t.as_str()))),
            Err(e) => Err(e),
        },
        Builtin::Lower => match text_at(values, 0) {
            Ok(t) => Ok(VariableValue::Text(to_lower(t.as_str()))),
            Err(e) => Err(e),
        },
        _ => Err(ErrorHandler::SyntaxError(String::from_str("Expected a value"))),
    }
}

/// The exit code that `n` asks for.
pub fn exit_code_of(n: &Number) -> (code: i32)
    ensures
        code == exit_code(n@),
{
    let w = n.whole_part();
    if w < -2147483648 {
        -2147483648
    } else if w > 2147483647 {
        2147483647
    } else {
        w as i32
    }
}

} // verus!
