//! Numbers as they are written in source text.

use vstd::prelude::*;
use crate::number::{in_range, Number, SCALE};

pub mod written;

verus! {

/// A number as it is written in source text: a whole number, or a
/// decimal number given by its units.
pub enum Literal {
    Int(int),
    Float(int),
}

/// What reading a token as a number gives.
#[derive(Debug, PartialEq, Eq)]
pub enum ReadNumber {
    /// The token is not written as a number.
    NotANumber,
    Int(i64),
    Float(Number),
    /// The token is a number too large to hold.
    OutOfRange,
}

/// Whether a character is a decimal digit.
pub open spec fn is_digit(c: char) -> bool {
    c == '0' || c == '1' || c == '2' || c == '3' || c == '4' || c == '5' || c == '6' || c == '7'
        || c == '8' || c == '9'
}

/// The number that a digit stands for; zero for every other character.
pub open spec fn digit_value(c: char) -> int {
    if c == '1' {
        1
    } else if c == '2' {
        2
    } else if c == '3' {
        3
    } else if c == '4' {
        4
    } else if c == '5' {
        5
    } else if c == '6' {
        6
    } else if c == '7' {
        7
    } else if c == '8' {
        8
    } else if c == '9' {
        9
    } else {
        0
    }
}

/// Whether every character is a digit.
pub open spec fn all_digits(s: Seq<char>) -> bool {
    forall|i: int| 0 <= i < s.len() ==> is_digit(#[trigger] s[i])
}

/// The number that a sequence of digits writes.
pub open spec fn digits_value(s: Seq<char>) -> int
    decreases s.len(),
{
    if s.len() == 0 {
        0
    } else {
        digits_value(s.drop_last()) * 10 + digit_value(s.last())
    }
}

/// The place of the first `.` at or after `from`; the length where
/// there is none.
pub open spec fn first_dot(s: Seq<char>, from: int) -> int
    decreases s.len() - from,
{
    if from < 0 || from >= s.len() {
        s.len() as int
    } else if s[from] == '.' {
        from
    } else {
        first_dot(s, from + 1)
    }
}

/// Whether a text is digits, or digits, a `.` and digits.
pub open spec fn is_number_text(s: Seq<char>) -> bool {
    let d = first_dot(s, 0);
    &&& 1 <= d <= s.len()
    &&& all_digits(s.subrange(0, d))
    &&& d == s.len() || (d + 1 < s.len() && all_digits(s.subrange(d + 1, s.len() as int)))
}

/// Ten to the power `n`.
pub open spec fn pow10(n: nat) -> int
    decreases n,
{
    if n == 0 {
        1
    } else {
        10 * pow10((n - 1) as nat)
    }
}

/// The units that the digits after the `.` stand for; digits after the
/// ninth are dropped.
pub open spec fn fraction_units(f: Seq<char>) -> int {
    if f.len() >= 9 {
        digits_value(f.subrange(0, 9))
    } else {
        digits_value(f) * pow10((9 - f.len()) as nat)
    }
}

/// The number that a text writes, if it writes one.
pub open spec fn literal_of(s: Seq<char>) -> Option<Literal> {
    if !is_number_text(s) {
        None
    } else {
        let d = first_dot(s, 0);
        if d == s.len() {
            Some(Literal::Int(digits_value(s)))
        } else {
            Some(
                Literal::Float(
                    digits_value(s.subrange(0, d)) * SCALE + fraction_units(
                        s.subrange(d + 1, s.len() as int),
                    ),
                ),
            )
        }
    }
}

/// What reading a text as a number gives.
pub open spec fn read_of(s: Seq<char>) -> ReadModel {
    match literal_of(s) {
        None => ReadModel::NotANumber,
        Some(Literal::Int(v)) => if v <= i64::MAX {
            ReadModel::Int(v)
        } else {
            ReadModel::OutOfRange
        },
        Some(Literal::Float(u)) => if in_range(u) {
            ReadModel::Float(u)
        } else {
            ReadModel::OutOfRange
        },
    }
}

/// What a [`ReadNumber`] says.
pub enum ReadModel {
    NotANumber,
    Int(int),
    Float(int),
    OutOfRange,
}

impl View for ReadNumber {
    type V = ReadModel;

    open spec fn view(&self) -> ReadModel {
        match self {
            ReadNumber::NotANumber => ReadModel::NotANumber,
            ReadNumber::Int(i) => ReadModel::Int(*i as int),
            ReadNumber::Float(n) => ReadModel::Float(n@),
            ReadNumber::OutOfRange => ReadModel::OutOfRange,
        }
    }
}

/// Digits write no negative number.
pub proof fn lemma_digits_value_nonnegative(s: Seq<char>)
    ensures
        digits_value(s) >= 0,
    decreases s.len(),
{
    if s.len() > 0 {
        lemma_digits_value_nonnegative(s.drop_last());
    }
}

/// The first digits of a number write no more than all of them.
proof fn lemma_digits_value_grows(s: Seq<char>, k: int)
    requires
        0 <= k <= s.len(),
    ensures
        digits_value(s.take(k)) <= digits_value(s),
    decreases s.len(),
{
    if k == s.len() {
        assert(s.take(k) == s);
    } else {
        lemma_digits_value_grows(s.drop_last(), k);
        lemma_digits_value_nonnegative(s.drop_last());
        assert(s.drop_last().take(k) == s.take(k));
    }
}

fn digit_of(c: char) -> (r: Option<u8>)
    ensures
        r matches Some(d) ==> is_digit(c) && d == digit_value(c) && d <= 9,
        r is None ==> !is_digit(c),
{
    if c == '0' {
        Some(0)
    } else if c == '1' {
        Some(1)
    } else if c == '2' {
        Some(2)
    } else if c == '3' {
        Some(3)
    } else if c == '4' {
        Some(4)
    } else if c == '5' {
        Some(5)
    } else if c == '6' {
        Some(6)
    } else if c == '7' {
        Some(7)
    } else if c == '8' {
        Some(8)
    } else if c == '9' {
        Some(9)
    } else {
        None
    }
}

/// What reading the characters from `from` to `to` as digits gives.
enum Digits {
    /// One of them is no digit.
    NotDigits,
    Value(u128),
    /// They are digits, and write more than the bound.
    TooLarge,
}

/// Reads the characters from `from` to `to` as a number of at most
/// `bound`.
fn read_digits(chars: &Vec<char>, from: usize, to: usize, bound: u128) -> (r: Digits)
    requires
        from <= to <= chars.len(),
        bound <= 1_000_000_000_000_000_000_000_000_000_000,
    ensures
        r is NotDigits <==> !all_digits(chars@.subrange(from as int, to as int)),
        r matches Digits::Value(v) ==> v == digits_value(chars@.subrange(from as int, to as int))
            && v <= bound,
        r is TooLarge ==> digits_value(chars@.subrange(from as int, to as int)) > bound,
{
    let ghost s = chars@.subrange(from as int, to as int);
    let mut i: usize = from;
    while i < to
        invariant
            from <= i <= to,
            to <= chars.len(),
            s == chars@.subrange(from as int, to as int),
            forall|k: int| 0 <= k < i - from ==> is_digit(#[trigger] s[k]),
        decreases to - i,
    {
        assert(s[i - from] == chars@[i as int]);
        if digit_of(chars[i]).is_none() {
            return Digits::NotDigits;
        }
        i = i + 1;
    }
    assert(all_digits(s));
    let mut acc: u128 = 0;
    let mut j: usize = from;
    assert(s.take(0) =~= Seq::<char>::empty());
    while j < to
        invariant
            from <= j <= to,
            to <= chars.len(),
            s == chars@.subrange(from as int, to as int),
            all_digits(s),
            bound <= 1_000_000_000_000_000_000_000_000_000_000,
            acc <= bound,
            acc == digits_value(s.take(j - from)),
        decreases to - j,
    {
        assert(s[j - from] == chars@[j as int]);
        assert(s.take(j - from + 1).drop_last() == s.take(j - from));
        assert(s.take(j - from + 1).last() == s[j - from]);
        let d: u8 = match digit_of(chars[j]) {
            Some(d) => d,
            None => 0,
        };
        let next: u128 = acc * 10 + d as u128;
        if next > bound {
            proof {
                lemma_digits_value_grows(s, j - from + 1);
            }
            return Digits::TooLarge;
        }
        acc = next;
        j = j + 1;
    }
    assert(s.take(j - from) == s);
    Digits::Value(acc)
}

/// The place of the first `.`.
fn find_dot(chars: &Vec<char>) -> (d: usize)
    ensures
        d == first_dot(chars@, 0),
        d <= chars.len(),
{
    let mut i: usize = 0;
    while i < chars.len()
        invariant
            i <= chars.len(),
            first_dot(chars@, 0) == first_dot(chars@, i as int),
        decreases chars.len() - i,
    {
        if chars[i] == '.' {
            return i;
        }
        i = i + 1;
    }
    i
}

/// Reads a token as a number.
pub fn read_number(token: &str) -> (r: ReadNumber)
    ensures
        r@ == read_of(token@),
{
    let chars = crate::text::to_chars(token);
    let len = chars.len();
    let d = find_dot(&chars);
    if d == 0 {
        return ReadNumber::NotANumber;
    }
    let whole = match read_digits(&chars, 0, d, 9_223_372_036_854_775_808) {
        Digits::NotDigits => {
            return ReadNumber::NotANumber;
        },
        Digits::Value(v) => Some(v),
        Digits::TooLarge => None,
    };
    if d == len {
        assert(chars@.subrange(0, d as int) == chars@);
        return match whole {
            Some(v) => if v <= 9_223_372_036_854_775_807 {
                ReadNumber::Int(v as i64)
            } else {
                ReadNumber::OutOfRange
            },
            None => ReadNumber::OutOfRange,
        };
    }
    if d + 1 >= len {
        return ReadNumber::NotANumber;
    }
    let ghost f = chars@.subrange(d + 1, len as int);
    let kept: usize = if len - (d + 1) >= 9 {
        9
    } else {
        len - (d + 1)
    };
    match read_digits(&chars, d + 1, len, 1_000_000_000_000_000_000_000_000_000_000) {
        Digits::NotDigits => {
            return ReadNumber::NotANumber;
        },
        _ => {},
    }
    assert(all_digits(f));
    assert(chars@.subrange(d + 1, d + 1 + kept) == f.subrange(0, kept as int));
    assert(all_digits(f.subrange(0, kept as int))) by {
        assert forall|k: int| 0 <= k < kept implies is_digit(
            #[trigger] f.subrange(0, kept as int)[k],
        ) by {
            assert(f.subrange(0, kept as int)[k] == f[k]);
        }
    }
    let mut frac: u128 = match read_digits(&chars, d + 1, d + 1 + kept, 999_999_999_999) {
        Digits::Value(v) => v,
        _ => {
            proof {
                lemma_nine_digits(f.subrange(0, kept as int));
            }
            0
        },
    };
    proof {
        lemma_nine_digits(f.subrange(0, kept as int));
        if kept < 9 {
            assert(f.subrange(0, kept as int) == f);
        }
    }
    let mut width: usize = kept;
    while width < 9
        invariant
            kept <= width <= 9,
            kept == 9 || kept == f.len(),
            frac == digits_value(f.subrange(0, kept as int)) * pow10((width - kept) as nat),
            frac < pow10(width as nat),
        decreases 9 - width,
    {
        assert(pow10((width + 1 - kept) as nat) == 10 * pow10((width - kept) as nat));
        assert(pow10((width + 1) as nat) == 10 * pow10(width as nat));
        proof {
            lemma_pow10_bound(width as nat);
        }
        assert(digits_value(f.subrange(0, kept as int)) * (10 * pow10((width - kept) as nat))
            == 10 * (digits_value(f.subrange(0, kept as int)) * pow10((width - kept) as nat)))
            by (nonlinear_arith);
        frac = frac * 10;
        width = width + 1;
    }
    assert(frac == fraction_units(f));
    proof {
        lemma_pow10_bound(9);
    }
    match whole {
        None => ReadNumber::OutOfRange,
        Some(w) => {
            let units: i128 = (w as i128) * SCALE + (frac as i128);
            match Number::from_units(units) {
                Some(n) => ReadNumber::Float(n),
                None => ReadNumber::OutOfRange,
            }
        },
    }
}

/// Powers of ten up to the ninth.
proof fn lemma_pow10_bound(n: nat)
    requires
        n <= 9,
    ensures
        1 <= pow10(n) <= 1_000_000_000,
        n == 9 ==> pow10(n) == 1_000_000_000,
    decreases n,
{
    reveal_with_fuel(pow10, 10);
}

/// At most nine digits write a number below ten to their count.
proof fn lemma_nine_digits(s: Seq<char>)
    requires
        all_digits(s),
        s.len() <= 9,
    ensures
        0 <= digits_value(s) < pow10(s.len()),
        digits_value(s) <= 999_999_999_999,
    decreases s.len(),
{
    lemma_pow10_bound(s.len());
    if s.len() > 0 {
        lemma_nine_digits(s.drop_last());
        assert(is_digit(s[s.len() - 1]));
        lemma_pow10_bound((s.len() - 1) as nat);
        assert(pow10(s.len()) == 10 * pow10((s.len() - 1) as nat));
    }
}

} // verus!
