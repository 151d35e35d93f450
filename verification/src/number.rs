//! Decimal numbers with nine fractional digits, and their arithmetic.

use vstd::prelude::*;

verus! {

/// How many units make one whole: numbers carry nine decimal places.
pub const SCALE: i128 = 1_000_000_000;

/// The largest magnitude, in units, that a number may have.
pub const MAX_UNITS: i128 = 9_223_372_036_854_775_808_000_000_000;

/// Whether a count of units can be held by a [`Number`].
pub open spec fn in_range(units: int) -> bool {
    -MAX_UNITS <= units <= MAX_UNITS
}

/// Integer division that rounds toward zero.
pub open spec fn trunc_div(n: int, d: int) -> int {
    if d > 0 {
        if n >= 0 {
            n / d
        } else {
            -((-n) / d)
        }
    } else {
        if n >= 0 {
            -(n / (-d))
        } else {
            (-n) / (-d)
        }
    }
}

/// The remainder that goes with [`trunc_div`]: it has the sign of `n`.
pub open spec fn trunc_rem(n: int, d: int) -> int {
    n - d * trunc_div(n, d)
}

/// `Some(units)` when the count is in range, `None` otherwise.
pub open spec fn checked(units: int) -> Option<int> {
    if in_range(units) {
        Some(units)
    } else {
        None
    }
}

/// The units of the product of two numbers given in units.
pub open spec fn product_units(a: int, b: int) -> int {
    trunc_div(a * b, SCALE as int)
}

/// The units of the quotient of two numbers given in units (`b != 0`).
pub open spec fn quotient_units(a: int, b: int) -> int {
    trunc_div(a * SCALE, b)
}

/// `base` raised to the whole power `exp` by repeated squaring, every
/// product rounded toward zero; `None` once a product leaves the range.
pub open spec fn power_units(base: int, exp: nat) -> Option<int>
    decreases exp,
{
    if exp == 0 {
        Some(SCALE as int)
    } else if exp % 2 == 0 {
        match power_units(base, exp / 2) {
            Some(h) => checked(product_units(h, h)),
            None => None,
        }
    } else {
        match power_units(base, (exp - 1) as nat) {
            Some(p) => checked(product_units(p, base)),
            None => None,
        }
    }
}

/// The character of a decimal digit.
pub open spec fn digit_char(d: int) -> char {
    if d <= 0 {
        '0'
    } else if d == 1 {
        '1'
    } else if d == 2 {
        '2'
    } else if d == 3 {
        '3'
    } else if d == 4 {
        '4'
    } else if d == 5 {
        '5'
    } else if d == 6 {
        '6'
    } else if d == 7 {
        '7'
    } else if d == 8 {
        '8'
    } else {
        '9'
    }
}

/// The decimal digits of a natural number, without leading zeros.
pub open spec fn digits(n: nat) -> Seq<char>
    decreases n,
{
    if n < 10 {
        seq![digit_char(n as int)]
    } else {
        digits(n / 10).push(digit_char((n % 10) as int))
    }
}

/// The digits of a fraction `f` whose first digit has the value
/// `place`, up to its last digit that is not zero.
pub open spec fn fraction_digits(f: nat, place: nat) -> Seq<char>
    decreases place,
{
    if f == 0 || place == 0 {
        Seq::empty()
    } else {
        seq![digit_char((f / place) as int)] + fraction_digits(f % place, place / 10)
    }
}

/// How a number is written: a sign where it is negative, the whole
/// part, and the fraction where there is one.
pub open spec fn number_text(units: int) -> Seq<char> {
    let m = if units < 0 {
        -units
    } else {
        units
    };
    let whole = digits((m / (SCALE as int)) as nat);
    let frac = if m % (SCALE as int) == 0 {
        Seq::empty()
    } else {
        seq!['.'] + fraction_digits((m % (SCALE as int)) as nat, 100_000_000)
    };
    if units < 0 {
        seq!['-'] + whole + frac
    } else {
        whole + frac
    }
}

/// A decimal number with nine fractional digits, held as a count of
/// units of one billionth.
#[derive(Clone, Copy, Debug, PartialEq, Eq)]
pub struct Number {
    units: i128,
}

impl View for Number {
    type V = int;

    closed spec fn view(&self) -> int {
        self.units as int
    }
}

impl Number {
    #[verifier::type_invariant]
    spec fn in_bounds(&self) -> bool {
        in_range(self.units as int)
    }

    /// The number's count of units.
    pub fn units(&self) -> (u: i128)
        ensures
            u == self@,
            in_range(self@),
    {
        proof {
            use_type_invariant(self);
        }
        self.units
    }

    /// The number with the given count of units, if it is in range.
    pub fn from_units(units: i128) -> (r: Option<Number>)
        ensures
            r matches Some(n) ==> n@ == units,
            r is Some <==> in_range(units as int),
    {
        if -MAX_UNITS <= units && units <= MAX_UNITS {
            Some(Number { units })
        } else {
            None
        }
    }

    /// The whole number `i`.
    pub fn from_int(i: i64) -> (n: Number)
        ensures
            n@ == i * SCALE,
    {
        let wide: i128 = i as i128;
        Number { units: wide * SCALE }
    }

    /// Zero.
    pub fn zero() -> (n: Number)
        ensures
            n@ == 0,
    {
        Number { units: 0 }
    }

    /// One for `true`, zero for `false`.
    pub fn from_bool(b: bool) -> (n: Number)
        ensures
            n@ == if b { SCALE as int } else { 0 },
    {
        if b {
            Number { units: SCALE }
        } else {
            Number { units: 0 }
        }
    }

    /// Whether the number is zero.
    pub fn is_zero(&self) -> (b: bool)
        ensures
            b == (self@ == 0),
    {
        self.units == 0
    }

    /// Whether two numbers are the same number.
    pub fn equals(&self, other: &Number) -> (b: bool)
        ensures
            b == (self@ == other@),
    {
        self.units == other.units
    }

    /// Whether `self` is less than `other`.
    pub fn less_than(&self, other: &Number) -> (b: bool)
        ensures
            b == (self@ < other@),
    {
        self.units < other.units
    }

    /// The sum, unless it leaves the range.
    pub fn plus(&self, other: &Number) -> (r: Option<Number>)
        ensures
            r matches Some(n) ==> n@ == self@ + other@,
            r is Some <==> in_range(self@ + other@),
    {
        proof {
            use_type_invariant(self);
            use_type_invariant(other);
        }
        Number::from_units(self.units + other.units)
    }

    /// The difference, unless it leaves the range.
    pub fn minus(&self, other: &Number) -> (r: Option<Number>)
        ensures
            r matches Some(n) ==> n@ == self@ - other@,
            r is Some <==> in_range(self@ - other@),
    {
        proof {
            use_type_invariant(self);
            use_type_invariant(other);
        }
        Number::from_units(self.units - other.units)
    }

    /// The number with the opposite sign.
    pub fn negated(&self) -> (n: Number)
        ensures
            n@ == -self@,
    {
        proof {
            use_type_invariant(self);
        }
        Number { units: -self.units }
    }

    /// The product rounded toward zero, unless it leaves the range.
    pub fn times(&self, other: &Number) -> (r: Option<Number>)
        ensures
            r matches Some(n) ==> n@ == product_units(self@, other@),
            r is Some <==> in_range(product_units(self@, other@)),
    {
        proof {
            use_type_invariant(self);
            use_type_invariant(other);
        }
        match self.units.checked_mul(other.units) {
            Some(p) => {
                if p == i128::MIN {
                    None
                } else {
                    Number::from_units(div_toward_zero(p, SCALE))
                }
            },
            None => {
                proof {
                    lemma_large_product(self.units as int, other.units as int);
                }
                None
            },
        }
    }

    /// The quotient rounded toward zero; `None` when `other` is zero or
    /// the quotient leaves the range.
    pub fn divided_by(&self, other: &Number) -> (r: Option<Number>)
        ensures
            r matches Some(n) ==> n@ == quotient_units(self@, other@),
            r is Some <==> other@ != 0 && in_range(quotient_units(self@, other@)),
    {
        proof {
            use_type_invariant(self);
            use_type_invariant(other);
        }
        if other.units == 0 {
            return None;
        }
        assert(self.units * SCALE <= MAX_UNITS * SCALE && self.units * SCALE >= -MAX_UNITS
            * SCALE) by (nonlinear_arith)
            requires
                -MAX_UNITS <= self.units <= MAX_UNITS,
        ;
        let scaled: i128 = self.units * SCALE;
        Number::from_units(div_toward_zero(scaled, other.units))
    }

    /// The remainder of the division rounded toward zero; `None` when
    /// `other` is zero.
    pub fn remainder(&self, other: &Number) -> (r: Option<Number>)
        ensures
            r matches Some(n) ==> n@ == trunc_rem(self@, other@),
            r is Some <==> other@ != 0,
    {
        proof {
            use_type_invariant(self);
            use_type_invariant(other);
        }
        if other.units == 0 {
            return None;
        }
        let m: i128 = rem_toward_zero(self.units, other.units);
        proof {
            lemma_trunc_rem_bound(self.units as int, other.units as int);
        }
        Some(Number { units: m })
    }

    /// The whole part, rounded toward zero.
    pub fn whole_part(&self) -> (i: i128)
        ensures
            i == trunc_div(self@, SCALE as int),
            -9_223_372_036_854_775_808 <= i <= 9_223_372_036_854_775_808,
    {
        proof {
            use_type_invariant(self);
        }
        div_toward_zero(self.units, SCALE)
    }

    /// Whether the number has no fractional part.
    pub fn is_whole(&self) -> (b: bool)
        ensures
            b == (trunc_rem(self@, SCALE as int) == 0),
    {
        proof {
            use_type_invariant(self);
        }
        rem_toward_zero(self.units, SCALE) == 0
    }

    /// `self` raised to the whole power `exp`.
    pub fn power(&self, exp: u64) -> (r: Option<Number>)
        ensures
            r matches Some(n) ==> power_units(self@, exp as nat) == Some(n@),
            r is None ==> power_units(self@, exp as nat) is None,
        decreases exp,
    {
        if exp == 0 {
            Some(Number { units: SCALE })
        } else if exp % 2 == 0 {
            match self.power(exp / 2) {
                Some(h) => h.times(&h),
                None => None,
            }
        } else {
            match self.power(exp - 1) {
                Some(p) => p.times(self),
                None => None,
            }
        }
    }

    /// The number as text.
    pub fn to_string(&self) -> (s: String)
        ensures
            s@ == number_text(self@),
    {
        proof {
            use_type_invariant(self);
        }
        let mut out: Vec<char> = Vec::new();
        if self.units < 0 {
            out.push('-');
        }
        let m: i128 = if self.units < 0 {
            -self.units
        } else {
            self.units
        };
        push_digits(&mut out, m / SCALE);
        let mut f: i128 = m % SCALE;
        if f != 0 {
            out.push('.');
            let ghost start = out@;
            let ghost f0 = f;
            let mut place: i128 = 100_000_000;
            assert(start + fraction_digits(f as nat, place as nat) == start + fraction_digits(
                f0 as nat,
                100_000_000,
            ));
            while f != 0 && place != 0
                invariant
                    0 <= f,
                    0 <= place <= 100_000_000,
                    out@ + fraction_digits(f as nat, place as nat) == start + fraction_digits(
                        f0 as nat,
                        100_000_000,
                    ),
                decreases place,
            {
                let ghost before = out@;
                out.push(digit(f / place));
                assert(before + (seq![digit_char((f / place) as int)] + fraction_digits(
                    (f % place) as nat,
                    (place / 10) as nat,
                )) == out@ + fraction_digits((f % place) as nat, (place / 10) as nat));
                f = f % place;
                place = place / 10;
            }
            assert(fraction_digits(f as nat, place as nat) == Seq::<char>::empty());
            assert(out@ + Seq::<char>::empty() == out@);
        }
        let s = crate::text::from_chars(&out);
        assert(s@ == number_text(self@));
        s
    }
}

/// The character of the digit `d`.
fn digit(d: i128) -> (c: char)
    ensures
        c == digit_char(d as int),
{
    if d <= 0 {
        '0'
    } else if d == 1 {
        '1'
    } else if d == 2 {
        '2'
    } else if d == 3 {
        '3'
    } else if d == 4 {
        '4'
    } else if d == 5 {
        '5'
    } else if d == 6 {
        '6'
    } else if d == 7 {
        '7'
    } else if d == 8 {
        '8'
    } else {
        '9'
    }
}

/// Appends the decimal digits of `n`.
fn push_digits(out: &mut Vec<char>, n: i128)
    requires
        0 <= n,
    ensures
        final(out)@ == old(out)@ + digits(n as nat),
    decreases n,
{
    if n < 10 {
        out.push(digit(n));
        assert(out@ == old(out)@ + digits(n as nat));
    } else {
        push_digits(out, n / 10);
        out.push(digit(n % 10));
        assert(out@ == old(out)@ + digits(n as nat));
    }
}

/// Division of machine integers, rounded toward zero.
fn div_toward_zero(n: i128, d: i128) -> (q: i128)
    requires
        d != 0,
        i128::MIN < n,
        i128::MIN < d,
    ensures
        q == trunc_div(n as int, d as int),
{
    if d > 0 {
        if n >= 0 {
            n / d
        } else {
            let q: i128 = (-n) / d;
            -q
        }
    } else {
        if n >= 0 {
            let q: i128 = n / (-d);
            -q
        } else {
            (-n) / (-d)
        }
    }
}

/// The remainder that goes with [`div_toward_zero`].
fn rem_toward_zero(n: i128, d: i128) -> (m: i128)
    requires
        d != 0,
        i128::MIN < n,
        i128::MIN < d,
    ensures
        m == trunc_rem(n as int, d as int),
{
    let an: i128 = if n >= 0 { n } else { -n };
    let ad: i128 = if d > 0 { d } else { -d };
    let m: i128 = an % ad;
    proof {
        assert(an == ad * (an / ad) + an % ad) by (nonlinear_arith)
            requires
                ad > 0,
        ;
        lemma_trunc_div_product(n as int, d as int);
    }
    if n >= 0 {
        m
    } else {
        -m
    }
}

/// What the divisor times the truncated quotient is, by magnitudes.
proof fn lemma_trunc_div_product(n: int, d: int)
    requires
        d != 0,
    ensures
        ({
            let an = if n >= 0 { n } else { -n };
            let ad = if d > 0 { d } else { -d };
            d * trunc_div(n, d) == if n >= 0 { ad * (an / ad) } else { -(ad * (an / ad)) }
        }),
{
    let an = if n >= 0 { n } else { -n };
    let ad = if d > 0 { d } else { -d };
    let q = an / ad;
    assert(d * trunc_div(n, d) == if n >= 0 { ad * q } else { -(ad * q) }) by (nonlinear_arith)
        requires
            d != 0,
            ad == if d > 0 { d } else { -d },
            trunc_div(n, d) == if (n >= 0) == (d > 0) { q } else { -q },
    ;
}

/// A product too large for 128 bits is out of range after scaling.
proof fn lemma_large_product(a: int, b: int)
    requires
        a * b > i128::MAX || a * b < i128::MIN,
    ensures
        !in_range(product_units(a, b)),
{
    let p = a * b;
    if p > i128::MAX {
        assert(p / (SCALE as int) > MAX_UNITS);
    } else {
        assert((-p) / (SCALE as int) > MAX_UNITS);
    }
}

/// The truncated remainder is no larger in magnitude than the dividend.
proof fn lemma_trunc_rem_bound(n: int, d: int)
    requires
        d != 0,
    ensures
        n >= 0 ==> 0 <= trunc_rem(n, d) <= n,
        n <= 0 ==> n <= trunc_rem(n, d) <= 0,
{
    let an = if n >= 0 { n } else { -n };
    let ad = if d > 0 { d } else { -d };
    assert(0 <= an % ad <= an) by (nonlinear_arith)
        requires
            an >= 0,
            ad > 0,
    ;
    assert(an == ad * (an / ad) + an % ad) by (nonlinear_arith)
        requires
            ad > 0,
    ;
    lemma_trunc_div_product(n, d);
}

} // verus!
