//! Exact quotients of integers.

use vstd::prelude::*;

verus! {

/// The mathematical value `num / den`.
pub struct Rational {
    pub num: int,
    pub den: int,
}

impl Rational {
    /// A quotient is meaningful when its denominator is positive.
    pub open spec fn wf(self) -> bool {
        self.den > 0
    }

    /// The whole number `n` as a quotient.
    pub open spec fn whole(n: int) -> Rational {
        Rational { num: n, den: 1 }
    }

    /// `self < other`, for positive denominators.
    pub open spec fn less(self, other: Rational) -> bool {
        self.num * other.den < other.num * self.den
    }

    /// `self == other` as values, for positive denominators.
    pub open spec fn same(self, other: Rational) -> bool {
        self.num * other.den == other.num * self.den
    }

    /// `self - other`.
    pub open spec fn minus(self, other: Rational) -> Rational {
        Rational { num: self.num * other.den - other.num * self.den, den: self.den * other.den }
    }

    /// `self + n` for a whole number `n`.
    pub open spec fn plus_whole(self, n: int) -> Rational {
        Rational { num: self.num + n * self.den, den: self.den }
    }

    /// `|self|`.
    pub open spec fn magnitude(self) -> Rational {
        Rational { num: if self.num < 0 { -self.num } else { self.num }, den: self.den }
    }

    /// The nearest whole number, halves going away from zero.
    pub open spec fn rounded(self) -> int {
        if self.num >= 0 {
            (2 * self.num + self.den) / (2 * self.den)
        } else {
            -((2 * (-self.num) + self.den) / (2 * self.den))
        }
    }

    /// The whole part, dropping the fraction towards zero.
    pub open spec fn truncated(self) -> int {
        if self.num >= 0 {
            self.num / self.den
        } else {
            -((-self.num) / self.den)
        }
    }
}

/// `v` held to the range of `i32`.
pub open spec fn clamp_i32(v: int) -> int {
    if v < i32::MIN as int {
        i32::MIN as int
    } else if v > i32::MAX as int {
        i32::MAX as int
    } else {
        v
    }
}

/// Of three quotients with `a <= b < c`, the first is below the last.
pub proof fn lemma_below_chain(a: Rational, b: Rational, c: Rational)
    requires
        a.wf(),
        b.wf(),
        c.wf(),
        !b.less(a),
        b.less(c),
    ensures
        a.less(c),
{
    assert(a.num * c.den < c.num * a.den) by (nonlinear_arith)
        requires
            a.den > 0,
            b.den > 0,
            c.den > 0,
            a.num * b.den <= b.num * a.den,
            b.num * c.den < c.num * b.den,
    {
        assert((a.num * b.den) * c.den <= (b.num * a.den) * c.den);
        assert((b.num * c.den) * a.den < (c.num * b.den) * a.den);
        assert((a.num * c.den) * b.den < (c.num * a.den) * b.den);
    }
}

/// Of three quotients with `a < b <= c`, the first is below the last.
pub proof fn lemma_chain_below(a: Rational, b: Rational, c: Rational)
    requires
        a.wf(),
        b.wf(),
        c.wf(),
        a.less(b),
        !c.less(b),
    ensures
        a.less(c),
{
    assert(a.num * c.den < c.num * a.den) by (nonlinear_arith)
        requires
            a.den > 0,
            b.den > 0,
            c.den > 0,
            a.num * b.den < b.num * a.den,
            b.num * c.den <= c.num * b.den,
    {
        assert((a.num * b.den) * c.den < (b.num * a.den) * c.den);
        assert((b.num * c.den) * a.den <= (c.num * b.den) * a.den);
        assert((a.num * c.den) * b.den < (c.num * a.den) * b.den);
    }
}

/// The product of two 64-bit integers fits in 128 bits.
pub proof fn lemma_product_fits(a: int, b: int)
    requires
        i64::MIN <= a <= i64::MAX,
        i64::MIN <= b <= i64::MAX,
    ensures
        i128::MIN < a * b < i128::MAX,
{
    let bound: int = 0x8000_0000_0000_0000;
    assert(-bound * bound <= a * b <= bound * bound) by (nonlinear_arith)
        requires
            -bound <= a <= bound,
            -bound <= b <= bound,
            bound > 0,
    ;
    assert(0x8000_0000_0000_0000int * 0x8000_0000_0000_0000int == 0x4000_0000_0000_0000_0000_0000_0000_0000int);
}

/// A quotient of integers lies within one divisor below its dividend.
pub proof fn lemma_quotient_bounds(x: int, d: int)
    requires
        d > 0,
    ensures
        d * (x / d) <= x < d * (x / d) + d,
{
    vstd::arithmetic::div_mod::lemma_fundamental_div_mod(x, d);
    vstd::arithmetic::div_mod::lemma_mod_bound(x, d);
}

/// The only `q` with `d * q <= x < d * q + d` is `x / d`.
pub proof fn lemma_quotient_is(x: int, d: int, q: int)
    requires
        d > 0,
        d * q <= x < d * q + d,
    ensures
        x / d == q,
{
    assert(x == q * d + (x - d * q)) by (nonlinear_arith);
    vstd::arithmetic::div_mod::lemma_fundamental_div_mod_converse(x, d, q, x - d * q);
}

/// Rounding moves a quotient by at most a half, and by less than a half
/// away from zero.
pub proof fn lemma_rounded_is_near(a: Rational)
    requires
        a.wf(),
    ensures
        a.num >= 0 ==> -a.den <= 2 * (a.num - a.rounded() * a.den) < a.den,
        a.num < 0 ==> -a.den < 2 * (a.num - a.rounded() * a.den) <= a.den,
        a.num >= 0 ==> a.rounded() >= 0,
        a.num < 0 ==> a.rounded() <= 0,
{
    let q = a.den;
    if a.num >= 0 {
        let x = 2 * a.num + q;
        let r = x / (2 * q);
        lemma_quotient_bounds(x, 2 * q);
        assert(a.rounded() == r);
        assert((2 * q) * r == 2 * (r * q)) by (nonlinear_arith);
        assert(r >= 0) by (nonlinear_arith)
            requires
                (2 * q) * r + 2 * q > x,
                x >= 0,
                q > 0,
        ;
    } else {
        let x = 2 * (-a.num) + q;
        let r = x / (2 * q);
        lemma_quotient_bounds(x, 2 * q);
        assert(a.rounded() == -r);
        assert((2 * q) * r == 2 * (r * q)) by (nonlinear_arith);
        assert((-r) * q == -(r * q)) by (nonlinear_arith);
        assert(r >= 0) by (nonlinear_arith)
            requires
                (2 * q) * r + 2 * q > x,
                x >= 0,
                q > 0,
        ;
    }
}

/// Two quotients of the same value round to the same whole number.
pub proof fn lemma_same_value_same_rounding(a: Rational, b: Rational)
    requires
        a.wf(),
        b.wf(),
        a.same(b),
    ensures
        a.rounded() == b.rounded(),
{
    assert((a.num >= 0) == (b.num >= 0)) by (nonlinear_arith)
        requires
            a.den > 0,
            b.den > 0,
            a.num * b.den == b.num * a.den,
    ;
    let an = if a.num >= 0 { a.num } else { -a.num };
    let bn = if b.num >= 0 { b.num } else { -b.num };
    assert(an * b.den == bn * a.den) by (nonlinear_arith)
        requires
            a.num * b.den == b.num * a.den,
            (a.num >= 0) == (b.num >= 0),
            an == if a.num >= 0 { a.num } else { -a.num },
            bn == if b.num >= 0 { b.num } else { -b.num },
    ;
    let x = 2 * an + a.den;
    let y = 2 * bn + b.den;
    let r = x / (2 * a.den);
    lemma_quotient_bounds(x, 2 * a.den);
    assert((2 * b.den) * r <= y < (2 * b.den) * r + 2 * b.den) by (nonlinear_arith)
        requires
            a.den > 0,
            b.den > 0,
            an * b.den == bn * a.den,
            x == 2 * an + a.den,
            y == 2 * bn + b.den,
            (2 * a.den) * r <= x < (2 * a.den) * r + 2 * a.den,
    {
        assert(a.den * y == b.den * x);
        assert(a.den * ((2 * b.den) * r) == b.den * ((2 * a.den) * r));
        assert(a.den * ((2 * b.den) * r + 2 * b.den) == b.den * ((2 * a.den) * r + 2 * a.den));
    }
    lemma_quotient_is(y, 2 * b.den, r);
}

/// Of two quotients that are not negative, the smaller does not round to
/// more than the larger.
pub proof fn lemma_rounding_keeps_order(a: Rational, b: Rational)
    requires
        a.wf(),
        b.wf(),
        a.num >= 0,
        b.num >= 0,
        !b.less(a),
    ensures
        0 <= a.rounded() <= b.rounded(),
{
    let x = 2 * a.num + a.den;
    let y = 2 * b.num + b.den;
    let ra = x / (2 * a.den);
    let rb = y / (2 * b.den);
    lemma_quotient_bounds(x, 2 * a.den);
    lemma_quotient_bounds(y, 2 * b.den);
    lemma_rounded_is_near(a);
    if ra > rb {
        assert(false) by (nonlinear_arith)
            requires
                a.den > 0,
                b.den > 0,
                ra >= rb + 1,
                (2 * a.den) * ra <= 2 * a.num + a.den,
                2 * b.num + b.den < (2 * b.den) * rb + 2 * b.den,
                a.num * b.den <= b.num * a.den,
        {
            assert((2 * a.den) * (rb + 1) <= (2 * a.den) * ra);
            assert(((2 * a.den) * (rb + 1)) * b.den <= (2 * a.num + a.den) * b.den);
            assert((2 * b.num + b.den) * a.den < ((2 * b.den) * (rb + 1)) * a.den);
            assert(((2 * a.den) * (rb + 1)) * b.den == ((2 * b.den) * (rb + 1)) * a.den);
            assert((2 * b.num + b.den) * a.den < (2 * a.num + a.den) * b.den);
        }
    }
}

/// Once a displacement that goes one way has been made in whole units, what
/// is left of it either no longer goes that way by more than a tenth, or
/// rounds to no move at all.
pub proof fn lemma_rounding_settles(d: Rational, forward: bool)
    requires
        d.wf(),
        forward ==> 10 * d.num > d.den,
        !forward ==> 10 * d.num < -d.den,
    ensures
        ({
            let rest = d.plus_whole(-d.rounded());
            &&& rest.wf()
            &&& forward ==> (10 * rest.num > rest.den ==> rest.rounded() == 0)
            &&& !forward ==> (10 * rest.num < -rest.den ==> rest.rounded() == 0)
        }),
{
    let rest = d.plus_whole(-d.rounded());
    let q = d.den;
    lemma_rounded_is_near(d);
    assert((-d.rounded()) * q == -(d.rounded() * q)) by (nonlinear_arith);
    assert(rest.num == d.num - d.rounded() * q);
    if forward {
        if 10 * rest.num > rest.den {
            lemma_quotient_is(2 * rest.num + q, 2 * q, 0);
        }
    } else {
        if 10 * rest.num < -rest.den {
            lemma_quotient_is(2 * (-rest.num) + q, 2 * q, 0);
        }
    }
}

/// An exact quotient `num / den` of machine integers.
#[derive(Clone, Copy, Debug, PartialEq, Eq, Structural)]
pub struct Fraction {
    pub num: i64,
    pub den: i64,
}

impl View for Fraction {
    type V = Rational;

    open spec fn view(&self) -> Rational {
        Rational { num: self.num as int, den: self.den as int }
    }
}

impl Fraction {
    /// The whole number `n` over one.
    pub fn from_whole(n: i64) -> (r: Fraction)
        ensures
            r@ == Rational::whole(n as int),
    {
        Fraction { num: n, den: 1 }
    }

    /// Whether this quotient is below `other`.
    pub fn is_below(&self, other: &Fraction) -> (r: bool)
        ensures
            r == self@.less(other@),
    {
        let a: i128 = self.num as i128;
        let b: i128 = other.den as i128;
        let c: i128 = other.num as i128;
        let d: i128 = self.den as i128;
        proof {
            lemma_product_fits(a as int, b as int);
            lemma_product_fits(c as int, d as int);
        }
        a * b < c * d
    }

    /// The whole part of the quotient, towards zero, held to the range of `i32`.
    pub fn truncate_to_i32(&self) -> (r: i32)
        requires
            self.den > 0,
        ensures
            r as int == clamp_i32(self@.truncated()),
    {
        let n: i128 = self.num as i128;
        let d: i128 = self.den as i128;
        let m: i128 = if n >= 0 { n } else { -n };
        let p: i128 = m / d;
        proof {
            assert(0 <= p <= m) by (nonlinear_arith)
                requires
                    p == m as int / d as int,
                    m >= 0,
                    d > 0,
            ;
        }
        let q: i128 = if n >= 0 { p } else { -p };
        if q < -2147483648 {
            -2147483648
        } else if q > 2147483647 {
            2147483647
        } else {
            q as i32
        }
    }
}

} // verus!
