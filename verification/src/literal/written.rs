//! Proofs that a number that is written out is read back as itself.

use vstd::prelude::*;
use crate::literal::{
    lemma_digits_value_nonnegative,
    all_digits,
    digit_value,
    digits_value,
    first_dot,
    fraction_units,
    is_digit,
    is_number_text,
    literal_of,
    pow10,
    read_of,
    Literal,
    ReadModel,
};
use crate::number::{digit_char, digits, fraction_digits, MAX_UNITS, SCALE};

verus! {

/// The digits of a number are digits, and they write that number.
pub proof fn lemma_digits_write_the_number(n: nat)
    ensures
        digits(n).len() >= 1,
        all_digits(digits(n)),
        digits_value(digits(n)) == n,
    decreases n,
{
    if n < 10 {
        assert(digits(n) =~= seq![digit_char(n as int)]);
        assert(digits(n).drop_last() =~= Seq::<char>::empty());
        assert(digits_value(digits(n).drop_last()) == 0);
    } else {
        lemma_digits_write_the_number(n / 10);
        let d = digits(n);
        assert(d.drop_last() =~= digits(n / 10));
        assert(d.last() == digit_char((n % 10) as int));
        assert forall|i: int| 0 <= i < d.len() implies is_digit(#[trigger] d[i]) by {
            if i < d.len() - 1 {
                assert(d[i] == digits(n / 10)[i]);
            }
        }
    }
}

/// In digits followed by a `.`, the first `.` stands after the digits;
/// digits alone hold none.
pub proof fn lemma_first_dot(a: Seq<char>, rest: Seq<char>, from: int)
    requires
        all_digits(a),
        0 <= from <= a.len(),
    ensures
        first_dot(a + seq!['.'] + rest, from) == a.len(),
        first_dot(a, from) == a.len(),
    decreases a.len() - from,
{
    let s = a + seq!['.'] + rest;
    if from < a.len() {
        assert(s[from] == a[from]);
        assert(is_digit(a[from]));
        lemma_first_dot(a, rest, from + 1);
    } else {
        assert(s[from] == '.');
    }
}

/// What a digit before other digits adds to their value.
pub proof fn lemma_digits_value_cons(c: char, rest: Seq<char>)
    ensures
        digits_value(seq![c] + rest) == digit_value(c) * pow10(rest.len()) + digits_value(rest),
    decreases rest.len(),
{
    let s = seq![c] + rest;
    if rest.len() == 0 {
        assert(s.drop_last() =~= Seq::<char>::empty());
        assert(s.last() == c);
        assert(digits_value(s.drop_last()) == 0);
    } else {
        lemma_digits_value_cons(c, rest.drop_last());
        assert(s.drop_last() =~= seq![c] + rest.drop_last());
        assert(s.last() == rest.last());
        assert(pow10(rest.len()) == 10 * pow10((rest.len() - 1) as nat));
        assert(digit_value(c) * (10 * pow10((rest.len() - 1) as nat)) == (digit_value(c) * pow10(
            (rest.len() - 1) as nat,
        )) * 10) by (nonlinear_arith);
    }
}

/// Powers of ten multiply by adding their exponents.
pub proof fn lemma_pow10_add(a: nat, b: nat)
    ensures
        pow10(a) * pow10(b) == pow10(a + b),
        pow10(a) >= 1,
    decreases a,
{
    if a > 0 {
        lemma_pow10_add((a - 1) as nat, b);
        assert(pow10(a) == 10 * pow10((a - 1) as nat));
        assert(pow10(a + b) == 10 * pow10((a + b - 1) as nat));
        assert((10 * pow10((a - 1) as nat)) * pow10(b) == 10 * (pow10((a - 1) as nat) * pow10(b)))
            by (nonlinear_arith);
    }
}

/// The digits of a fraction are at most as many as its places, and
/// they write the fraction once the places that they leave out are
/// counted as zeros.
pub proof fn lemma_fraction_digits(f: nat, k: nat)
    requires
        f < pow10(k + 1),
    ensures
        ({
            let d = fraction_digits(f, pow10(k) as nat);
            &&& d.len() <= k + 1
            &&& all_digits(d)
            &&& digits_value(d) * pow10((k + 1 - d.len()) as nat) == f
            &&& f > 0 ==> d.len() >= 1
        }),
    decreases k,
{
    lemma_pow10_add(k, 0);
    let place = pow10(k) as nat;
    let d = fraction_digits(f, place);
    if f == 0 {
        assert(d =~= Seq::<char>::empty());
    } else {
        let c = digit_char((f / place) as int);
        let low = f % place;
        let below = fraction_digits(low, place / 10);
        assert(d == seq![c] + below);
        assert(pow10(k + 1) == 10 * pow10(k));
        assert(f / place < 10 && f == place * (f / place) + low && low < place)
            by (nonlinear_arith)
            requires
                f < 10 * place,
                place >= 1,
                low == f % place,
        ;
        assert(is_digit(c) && digit_value(c) == f / place);
        if k == 0 {
            assert(low == 0);
            assert(below =~= Seq::<char>::empty());
            assert(d =~= seq![c]);
            assert(d.drop_last() =~= Seq::<char>::empty());
            assert(digits_value(d.drop_last()) == 0);
        } else {
            assert(pow10(k) == 10 * pow10((k - 1) as nat));
            assert(place / 10 == pow10((k - 1) as nat));
            lemma_fraction_digits(low, (k - 1) as nat);
            lemma_digits_value_cons(c, below);
            let rest = (k - below.len()) as nat;
            lemma_pow10_add(below.len(), rest);
            assert forall|i: int| 0 <= i < d.len() implies is_digit(#[trigger] d[i]) by {
                if i > 0 {
                    assert(d[i] == below[i - 1]);
                }
            }
            assert((digit_value(c) * pow10(below.len()) + digits_value(below)) * pow10(rest)
                == digit_value(c) * (pow10(below.len()) * pow10(rest)) + digits_value(below)
                * pow10(rest)) by (nonlinear_arith);
            assert(digit_value(c) * pow10(k) == place * (f / place)) by (nonlinear_arith)
                requires
                    digit_value(c) == f / place,
                    pow10(k) == place,
            ;
        }
    }
}

/// A whole number that fits is read back from its digits.
pub proof fn lemma_whole_reads_back(i: int)
    requires
        0 <= i <= i64::MAX,
    ensures
        read_of(digits(i as nat)) == ReadModel::Int(i),
        is_digit(digits(i as nat)[0]),
        digits(i as nat).len() >= 1,
{
    let t = digits(i as nat);
    lemma_digits_write_the_number(i as nat);
    lemma_first_dot(t, Seq::empty(), 0);
    assert(t.subrange(0, t.len() as int) =~= t);
    assert(is_number_text(t));
}

/// A number with a fraction as its digits: the whole part, a `.`, and
/// the fraction, which is `0` where there is none.
pub open spec fn decimal_text(units: int) -> Seq<char> {
    let whole = digits((units / (SCALE as int)) as nat);
    let f = units % (SCALE as int);
    if f == 0 {
        whole + seq!['.'] + seq!['0']
    } else {
        whole + seq!['.'] + fraction_digits(f as nat, 100_000_000)
    }
}

/// A number with a fraction that fits is read back from its text.
pub proof fn lemma_decimal_reads_back(units: int)
    requires
        0 <= units <= MAX_UNITS,
    ensures
        read_of(decimal_text(units)) == ReadModel::Float(units),
        is_digit(decimal_text(units)[0]),
        decimal_text(units).len() >= 1,
{
    let w = (units / (SCALE as int)) as nat;
    let f = (units % (SCALE as int)) as nat;
    let whole = digits(w);
    lemma_digits_write_the_number(w);
    reveal_with_fuel(pow10, 10);
    assert(pow10(8) == 100_000_000);
    assert(pow10(9) == 1_000_000_000);
    let frac = if f == 0 {
        seq!['0']
    } else {
        fraction_digits(f, 100_000_000)
    };
    let t = decimal_text(units);
    assert(t == whole + seq!['.'] + frac);
    lemma_first_dot(whole, frac, 0);
    assert(t.subrange(0, whole.len() as int) =~= whole);
    assert(t.subrange(whole.len() as int + 1, t.len() as int) =~= frac);
    assert(t[0] == whole[0]);
    if f == 0 {
        assert(frac.drop_last() =~= Seq::<char>::empty());
        assert(digits_value(frac.drop_last()) == 0);
        assert(digits_value(frac) == 0);
        assert(fraction_units(frac) == 0);
        assert(all_digits(frac));
    } else {
        lemma_fraction_digits(f, 8);
        if frac.len() >= 9 {
            assert(frac.subrange(0, 9) =~= frac);
            assert(pow10(0) == 1);
        }
        assert(fraction_units(frac) == f);
    }
    assert(is_number_text(t));
    assert(literal_of(t) == Some(Literal::Float(w * SCALE + f)));
}

/// A number that is read is not negative, and it fits.
pub proof fn lemma_read_is_in_range(t: Seq<char>)
    ensures
        read_of(t) matches ReadModel::Int(i) ==> 0 <= i <= i64::MAX,
        read_of(t) matches ReadModel::Float(u) ==> 0 <= u <= MAX_UNITS,
{
    if is_number_text(t) {
        let d = first_dot(t, 0);
        lemma_digits_value_nonnegative(t);
        lemma_digits_value_nonnegative(t.subrange(0, d));
        if d < t.len() {
            let f = t.subrange(d + 1, t.len() as int);
            lemma_digits_value_nonnegative(f);
            lemma_digits_value_nonnegative(f.subrange(0, 9));
            if f.len() < 9 {
                lemma_pow10_add((9 - f.len()) as nat, 0);
                assert(digits_value(f) * pow10((9 - f.len()) as nat) >= 0) by (nonlinear_arith)
                    requires
                        digits_value(f) >= 0,
                        pow10((9 - f.len()) as nat) >= 1,
                ;
            }
        }
    }
}

} // verus!
