//! Exact rational scalars.
//!
//! A `Rat` is a quotient of two `i64`s with a positive denominator. All
//! arithmetic is performed exactly in `i128` intermediates, the result is
//! brought to lowest terms, and an operation reports `None` only when the
//! reduced result no longer fits in an `i64` pair. The mathematical model
//! is the ghost type `Ratio`, a quotient of unbounded integers; two models
//! denote the same scalar when they cross-multiply equally (`ratio_eq`).

use vstd::prelude::*;

verus! {

/// Mathematical model of a scalar: the quotient `n / d` of unbounded integers.
#[verifier::ext_equal]
pub ghost struct Ratio {
    pub n: int,
    pub d: int,
}

/// A model is well formed when its denominator is positive.
pub open spec fn ratio_wf(r: Ratio) -> bool {
    r.d > 0
}

/// `a` and `b` denote the same rational number.
pub open spec fn ratio_eq(a: Ratio, b: Ratio) -> bool {
    a.n * b.d == b.n * a.d
}

/// `a <= b` as rational numbers (meaningful when both are well formed).
pub open spec fn ratio_le(a: Ratio, b: Ratio) -> bool {
    a.n * b.d <= b.n * a.d
}

/// `a < b` as rational numbers (meaningful when both are well formed).
pub open spec fn ratio_lt(a: Ratio, b: Ratio) -> bool {
    a.n * b.d < b.n * a.d
}

pub open spec fn ratio_add(a: Ratio, b: Ratio) -> Ratio {
    Ratio { n: a.n * b.d + b.n * a.d, d: a.d * b.d }
}

pub open spec fn ratio_sub(a: Ratio, b: Ratio) -> Ratio {
    Ratio { n: a.n * b.d - b.n * a.d, d: a.d * b.d }
}

pub open spec fn ratio_neg(a: Ratio) -> Ratio {
    Ratio { n: -a.n, d: a.d }
}

pub open spec fn ratio_mul(a: Ratio, b: Ratio) -> Ratio {
    Ratio { n: a.n * b.n, d: a.d * b.d }
}

/// Division keeps the denominator positive by moving the divisor's sign
/// into the numerator.
pub open spec fn ratio_div(a: Ratio, b: Ratio) -> Ratio {
    if b.n >= 0 {
        Ratio { n: a.n * b.d, d: a.d * b.n }
    } else {
        Ratio { n: -(a.n * b.d), d: -(a.d * b.n) }
    }
}

/// Tolerance equality: `|a - b| < 1 / 100000` as rational numbers
/// (meaningful when both are well formed).
pub open spec fn ratio_approx_eq(a: Ratio, b: Ratio) -> bool {
    100000 * int_abs(a.n * b.d - b.n * a.d) < a.d * b.d
}

pub open spec fn ratio_int(i: int) -> Ratio {
    Ratio { n: i, d: 1 }
}

pub open spec fn int_abs(x: int) -> int {
    if x < 0 {
        -x
    } else {
        x
    }
}

/// Greatest common divisor, by Euclid's rule.
pub open spec fn gcd(a: nat, b: nat) -> nat
    decreases b,
{
    if b == 0 {
        a
    } else {
        gcd(b, a % b)
    }
}

/// Lowest-terms form of a model: both components are divided by their
/// greatest common divisor when that division is exact. (For a well-formed
/// model the division always is; the guard keeps the definition total
/// without an appeal to that fact.)
pub open spec fn norm(r: Ratio) -> Ratio {
    let g = gcd(int_abs(r.n) as nat, int_abs(r.d) as nat) as int;
    if g > 1 && int_abs(r.n) % g == 0 && int_abs(r.d) % g == 0 {
        Ratio {
            n: if r.n < 0 {
                -(int_abs(r.n) / g)
            } else {
                int_abs(r.n) / g
            },
            d: if r.d < 0 {
                -(int_abs(r.d) / g)
            } else {
                int_abs(r.d) / g
            },
        }
    } else {
        r
    }
}

/// The component range an exact result must fit in to be representable.
pub open spec fn fits_scalar(x: int) -> bool {
    -(i64::MAX as int) <= x <= i64::MAX as int
}

/// An exact rational scalar with 64-bit components.
#[derive(Debug, Clone, Copy, PartialEq, Eq, Structural)]
pub struct Rat {
    pub num: i64,
    pub den: i64,
}

impl View for Rat {
    type V = Ratio;

    open spec fn view(&self) -> Ratio {
        Ratio { n: self.num as int, d: self.den as int }
    }
}

impl Rat {
    /// Positive denominator, and a numerator whose negation also fits.
    pub open spec fn wf(self) -> bool {
        self.den > 0 && self.num > i64::MIN
    }

    pub fn new(num: i64, den: i64) -> (r: Rat)
        requires
            den > 0,
            num > i64::MIN,
        ensures
            r.wf(),
            r@ == (Ratio { n: num as int, d: den as int }),
    {
        Rat { num, den }
    }

    pub fn from_int(i: i64) -> (r: Rat)
        requires
            i > i64::MIN,
        ensures
            r.wf(),
            r@ == ratio_int(i as int),
    {
        Rat { num: i, den: 1 }
    }

    pub fn zero() -> (r: Rat)
        ensures
            r.wf(),
            r@ == ratio_int(0),
    {
        Rat { num: 0, den: 1 }
    }

    pub fn one() -> (r: Rat)
        ensures
            r.wf(),
            r@ == ratio_int(1),
    {
        Rat { num: 1, den: 1 }
    }

    pub fn num(self) -> (n: i64)
        ensures
            n as int == self@.n,
    {
        self.num
    }

    pub fn den(self) -> (d: i64)
        ensures
            d as int == self@.d,
    {
        self.den
    }

    pub fn neg(self) -> (r: Rat)
        requires
            self.wf(),
        ensures
            r.wf(),
            r@ == ratio_neg(self@),
    {
        Rat { num: -self.num, den: self.den }
    }
}

/// Euclid's algorithm, matching the spec-level `gcd`.
fn gcd_u128(a0: u128, b0: u128) -> (g: u128)
    ensures
        g as nat == gcd(a0 as nat, b0 as nat),
{
    let mut a = a0;
    let mut b = b0;
    while b != 0
        invariant
            gcd(a as nat, b as nat) == gcd(a0 as nat, b0 as nat),
        decreases b,
    {
        let t = a % b;
        a = b;
        b = t;
    }
    a
}

/// The quotient `|x| / |y|` of two well-formed models bounds the products
/// that exact arithmetic forms in `i128`.
proof fn lemma_abs_mul_bound(x: int, y: int, xb: int, yb: int)
    by (nonlinear_arith)
    requires
        int_abs(x) <= xb,
        int_abs(y) <= yb,
    ensures
        int_abs(x * y) <= xb * yb,
{
}

/// Bringing a model to lowest terms keeps its value, its sign shape, and
/// only ever shrinks its components.
pub proof fn lemma_norm_properties(r: Ratio)
    requires
        ratio_wf(r),
    ensures
        ratio_wf(norm(r)),
        ratio_eq(norm(r), r),
        int_abs(norm(r).n) <= int_abs(r.n),
        norm(r).d <= r.d,
{
    let na = int_abs(r.n);
    let da = int_abs(r.d);
    let g = gcd(na as nat, da as nat) as int;
    if g > 1 && na % g == 0 && da % g == 0 {
        let n2 = na / g;
        let d2 = da / g;
        vstd::arithmetic::div_mod::lemma_fundamental_div_mod(na, g);
        vstd::arithmetic::div_mod::lemma_fundamental_div_mod(da, g);
        assert(na == g * n2);
        assert(da == g * d2);
        assert(n2 >= 0 && d2 >= 0) by (nonlinear_arith)
            requires
                na >= 0 && da >= 0 && g > 1 && na == g * n2 && da == g * d2,
        {
        }
        assert(d2 > 0) by (nonlinear_arith)
            requires
                da > 0 && g > 1 && da == g * d2,
        {
        }
        assert(n2 <= na && d2 <= da) by (nonlinear_arith)
            requires
                n2 >= 0 && d2 >= 0 && g > 1 && na == g * n2 && da == g * d2,
        {
        }
        if r.n < 0 {
            assert((-n2) * r.d == r.n * d2) by (nonlinear_arith)
                requires
                    na == -r.n && da == r.d && na == g * n2 && da == g * d2,
            {
            }
        } else {
            assert(n2 * r.d == r.n * d2) by (nonlinear_arith)
                requires
                    na == r.n && da == r.d && na == g * n2 && da == g * d2,
            {
            }
        }
    }
}

pub proof fn lemma_ratio_eq_sym(a: Ratio, b: Ratio)
    ensures
        ratio_eq(a, b) == ratio_eq(b, a),
{
}

pub proof fn lemma_ratio_eq_trans(a: Ratio, b: Ratio, c: Ratio)
    by (nonlinear_arith)
    requires
        ratio_wf(a),
        ratio_wf(b),
        ratio_wf(c),
        ratio_eq(a, b),
        ratio_eq(b, c),
    ensures
        ratio_eq(a, c),
{
    assert(a.n * b.d * c.d == b.n * a.d * c.d);
    assert(b.n * c.d * a.d == c.n * b.d * a.d);
}

impl Rat {
    /// Builds the reduced scalar for the exact value `n / d`, or reports
    /// that it does not fit in 64-bit components.
    fn from_i128(n: i128, d: i128) -> (r: Option<Rat>)
        requires
            0 < d,
            n > i128::MIN,
        ensures
            ({
                let v = norm(Ratio { n: n as int, d: d as int });
                match r {
                    Some(c) => c.wf() && c@ == v,
                    None => !(fits_scalar(v.n) && fits_scalar(v.d)),
                }
            }),
    {
        let neg = n < 0;
        let mut na: u128 = if neg {
            (-n) as u128
        } else {
            n as u128
        };
        let mut da: u128 = d as u128;
        let g = gcd_u128(na, da);
        if g > 1 && na % g == 0 && da % g == 0 {
            na = na / g;
            da = da / g;
        }
        proof {
            lemma_norm_properties(Ratio { n: n as int, d: d as int });
        }
        if na <= i64::MAX as u128 && da <= i64::MAX as u128 {
            let num: i64 = if neg {
                -(na as i64)
            } else {
                na as i64
            };
            Some(Rat { num, den: da as i64 })
        } else {
            None
        }
    }

    /// Exact rational sum, reduced to lowest terms.
    pub fn add(self, other: Rat) -> (r: Option<Rat>)
        requires
            self.wf(),
            other.wf(),
        ensures
            ({
                let ideal = ratio_add(self@, other@);
                let v = norm(ideal);
                match r {
                    Some(c) => c.wf() && c@ == v && ratio_eq(c@, ideal),
                    None => !(fits_scalar(v.n) && fits_scalar(v.d)),
                }
            }),
            (match r {
                Some(c) => Some(c@) == try_add(self@, other@),
                None => try_add(self@, other@) is None,
            }),
    {
        proof {
            lemma_abs_mul_bound(self@.n, other@.d, i64::MAX as int, i64::MAX as int);
            lemma_abs_mul_bound(other@.n, self@.d, i64::MAX as int, i64::MAX as int);
            lemma_abs_mul_bound(self@.d, other@.d, i64::MAX as int, i64::MAX as int);
            assert(self@.d * other@.d > 0) by (nonlinear_arith)
                requires
                    self@.d > 0 && other@.d > 0,
            {
            }
            lemma_norm_properties(ratio_add(self@, other@));
        }
        let n = self.num as i128 * other.den as i128 + other.num as i128 * self.den as i128;
        let d = self.den as i128 * other.den as i128;
        Rat::from_i128(n, d)
    }

    /// Exact rational difference, reduced to lowest terms.
    pub fn sub(self, other: Rat) -> (r: Option<Rat>)
        requires
            self.wf(),
            other.wf(),
        ensures
            ({
                let ideal = ratio_sub(self@, other@);
                let v = norm(ideal);
                match r {
                    Some(c) => c.wf() && c@ == v && ratio_eq(c@, ideal),
                    None => !(fits_scalar(v.n) && fits_scalar(v.d)),
                }
            }),
            (match r {
                Some(c) => Some(c@) == try_sub(self@, other@),
                None => try_sub(self@, other@) is None,
            }),
    {
        proof {
            lemma_abs_mul_bound(self@.n, other@.d, i64::MAX as int, i64::MAX as int);
            lemma_abs_mul_bound(other@.n, self@.d, i64::MAX as int, i64::MAX as int);
            lemma_abs_mul_bound(self@.d, other@.d, i64::MAX as int, i64::MAX as int);
            assert(self@.d * other@.d > 0) by (nonlinear_arith)
                requires
                    self@.d > 0 && other@.d > 0,
            {
            }
            lemma_norm_properties(ratio_sub(self@, other@));
        }
        let n = self.num as i128 * other.den as i128 - other.num as i128 * self.den as i128;
        let d = self.den as i128 * other.den as i128;
        Rat::from_i128(n, d)
    }

    /// Exact rational product, reduced to lowest terms.
    pub fn mul(self, other: Rat) -> (r: Option<Rat>)
        requires
            self.wf(),
            other.wf(),
        ensures
            ({
                let ideal = ratio_mul(self@, other@);
                let v = norm(ideal);
                match r {
                    Some(c) => c.wf() && c@ == v && ratio_eq(c@, ideal),
                    None => !(fits_scalar(v.n) && fits_scalar(v.d)),
                }
            }),
            (match r {
                Some(c) => Some(c@) == try_mul(self@, other@),
                None => try_mul(self@, other@) is None,
            }),
    {
        proof {
            lemma_abs_mul_bound(self@.n, other@.n, i64::MAX as int, i64::MAX as int);
            lemma_abs_mul_bound(self@.d, other@.d, i64::MAX as int, i64::MAX as int);
            assert(self@.d * other@.d > 0) by (nonlinear_arith)
                requires
                    self@.d > 0 && other@.d > 0,
            {
            }
            lemma_norm_properties(ratio_mul(self@, other@));
        }
        let n = self.num as i128 * other.num as i128;
        let d = self.den as i128 * other.den as i128;
        Rat::from_i128(n, d)
    }

    /// Exact rational quotient, reduced to lowest terms. Division by a
    /// scalar equal to zero is a precondition violation.
    pub fn div(self, other: Rat) -> (r: Option<Rat>)
        requires
            self.wf(),
            other.wf(),
            other@.n != 0,
        ensures
            ({
                let ideal = ratio_div(self@, other@);
                let v = norm(ideal);
                match r {
                    Some(c) => c.wf() && c@ == v && ratio_eq(c@, ideal),
                    None => !(fits_scalar(v.n) && fits_scalar(v.d)),
                }
            }),
            (match r {
                Some(c) => Some(c@) == try_div(self@, other@),
                None => try_div(self@, other@) is None,
            }),
    {
        proof {
            lemma_abs_mul_bound(self@.n, other@.d, i64::MAX as int, i64::MAX as int);
            lemma_abs_mul_bound(self@.d, other@.n, i64::MAX as int, i64::MAX as int);
            assert(other@.n > 0 ==> self@.d * other@.n > 0) by (nonlinear_arith)
                requires
                    self@.d > 0,
            {
            }
            assert(other@.n < 0 ==> self@.d * other@.n < 0) by (nonlinear_arith)
                requires
                    self@.d > 0,
            {
            }
            lemma_norm_properties(ratio_div(self@, other@));
        }
        if other.num >= 0 {
            let n = self.num as i128 * other.den as i128;
            let d = self.den as i128 * other.num as i128;
            Rat::from_i128(n, d)
        } else {
            let n = -(self.num as i128 * other.den as i128);
            let d = -(self.den as i128 * other.num as i128);
            Rat::from_i128(n, d)
        }
    }

    /// Exact comparison: `self < other` as rational numbers.
    pub fn lt(self, other: Rat) -> (r: bool)
        requires
            self.wf(),
            other.wf(),
        ensures
            r == ratio_lt(self@, other@),
    {
        proof {
            lemma_abs_mul_bound(self@.n, other@.d, i64::MAX as int, i64::MAX as int);
            lemma_abs_mul_bound(other@.n, self@.d, i64::MAX as int, i64::MAX as int);
        }
        (self.num as i128 * other.den as i128) < (other.num as i128 * self.den as i128)
    }

    /// Exact comparison: `self <= other` as rational numbers.
    pub fn le(self, other: Rat) -> (r: bool)
        requires
            self.wf(),
            other.wf(),
        ensures
            r == ratio_le(self@, other@),
    {
        proof {
            lemma_abs_mul_bound(self@.n, other@.d, i64::MAX as int, i64::MAX as int);
            lemma_abs_mul_bound(other@.n, self@.d, i64::MAX as int, i64::MAX as int);
        }
        (self.num as i128 * other.den as i128) <= (other.num as i128 * self.den as i128)
    }

    /// Whether this scalar is exactly zero.
    pub fn is_zero(self) -> (r: bool)
        requires
            self.wf(),
        ensures
            r == (self@.n == 0),
    {
        self.num == 0
    }

    /// Exact comparison: the two scalars denote the same rational number.
    pub fn eq_exact(self, other: Rat) -> (r: bool)
        requires
            self.wf(),
            other.wf(),
        ensures
            r == ratio_eq(self@, other@),
    {
        proof {
            lemma_abs_mul_bound(self@.n, other@.d, i64::MAX as int, i64::MAX as int);
            lemma_abs_mul_bound(other@.n, self@.d, i64::MAX as int, i64::MAX as int);
        }
        (self.num as i128 * other.den as i128) == (other.num as i128 * self.den as i128)
    }

    /// Tolerance comparison: the two scalars differ by less than `1 / 100000`.
    pub fn approx_eq(self, other: Rat) -> (r: bool)
        requires
            self.wf(),
            other.wf(),
        ensures
            r == ratio_approx_eq(self@, other@),
    {
        proof {
            lemma_abs_mul_bound(self@.n, other@.d, i64::MAX as int, i64::MAX as int);
            lemma_abs_mul_bound(other@.n, self@.d, i64::MAX as int, i64::MAX as int);
            lemma_abs_mul_bound(self@.d, other@.d, i64::MAX as int, i64::MAX as int);
        }
        let diff = self.num as i128 * other.den as i128 - other.num as i128 * self.den as i128;
        let adiff: u128 = if diff < 0 {
            (-diff) as u128
        } else {
            diff as u128
        };
        let dens = self.den as u128 * other.den as u128;
        if adiff >= 0x4000000000000000000000000000u128 {
            proof {
                assert(100000 * int_abs(self@.n * other@.d - other@.n * self@.d) >= self@.d
                    * other@.d) by (nonlinear_arith)
                    requires
                        int_abs(self@.n * other@.d - other@.n * self@.d)
                            >= 0x4000000000000000000000000000,
                        self@.d * other@.d <= i64::MAX as int * (i64::MAX as int),
                {
                }
            }
            false
        } else {
            100000u128 * adiff < dens
        }
    }
}

/// Well-formedness of the exact operations: sums, differences, products and
/// quotients of well-formed models are well formed.
pub proof fn lemma_ratio_ops_wf(a: Ratio, b: Ratio)
    by (nonlinear_arith)
    requires
        ratio_wf(a),
        ratio_wf(b),
    ensures
        ratio_wf(ratio_add(a, b)),
        ratio_wf(ratio_sub(a, b)),
        ratio_wf(ratio_mul(a, b)),
        ratio_wf(ratio_neg(a)),
        b.n != 0 ==> ratio_wf(ratio_div(a, b)),
{
}

/// Rearrangements of a product of four factors, for reassociating the
/// cross-multiplication terms that rational identities produce.
proof fn lemma_mul4_rearrange(x: int, y: int, z: int, w: int)
    by (nonlinear_arith)
    ensures
        (x * y) * (z * w) == (x * z) * (y * w),
        (x * y) * (z * w) == (x * w) * (y * z),
        (x * y) * (z * w) == (z * x) * (w * y),
        (x * y) * (z * w) == (w * x) * (z * y),
{
}

/// Distributivity with the three products treated as opaque terms.
proof fn lemma_distribute(p: int, q: int, r: int)
    by (nonlinear_arith)
    ensures
        (p + q) * r == p * r + q * r,
        (p - q) * r == p * r - q * r,
{
}

/// Exact equality of models is a congruence for the arithmetic operations.
pub proof fn lemma_add_congruence(a: Ratio, b: Ratio, a2: Ratio, b2: Ratio)
    requires
        ratio_wf(a),
        ratio_wf(b),
        ratio_wf(a2),
        ratio_wf(b2),
        ratio_eq(a, a2),
        ratio_eq(b, b2),
    ensures
        ratio_eq(ratio_add(a, b), ratio_add(a2, b2)),
{
    lemma_distribute(a.n * b.d, b.n * a.d, a2.d * b2.d);
    lemma_distribute(a2.n * b2.d, b2.n * a2.d, a.d * b.d);
    lemma_mul4_rearrange(a.n, b.d, a2.d, b2.d);
    lemma_mul4_rearrange(b.n, a.d, a2.d, b2.d);
    lemma_mul4_rearrange(a2.n, b2.d, a.d, b.d);
    lemma_mul4_rearrange(b2.n, a2.d, a.d, b.d);
    assert((a.n * a2.d) * (b.d * b2.d) == (a2.n * a.d) * (b.d * b2.d)) by (nonlinear_arith)
        requires
            a.n * a2.d == a2.n * a.d,
    {
    }
    assert((b.n * b2.d) * (a.d * a2.d) == (b2.n * b.d) * (a.d * a2.d)) by (nonlinear_arith)
        requires
            b.n * b2.d == b2.n * b.d,
    {
    }
    assert((b.d * b2.d) == (b2.d * b.d) && (a.d * a2.d) == (a2.d * a.d)) by (nonlinear_arith);
    assert((a2.n * a.d) * (b2.d * b.d) == (a2.n * a.d) * (b.d * b2.d));
    assert((b2.n * b.d) * (a2.d * a.d) == (b2.n * b.d) * (a.d * a2.d));
}

pub proof fn lemma_sub_congruence(a: Ratio, b: Ratio, a2: Ratio, b2: Ratio)
    requires
        ratio_wf(a),
        ratio_wf(b),
        ratio_wf(a2),
        ratio_wf(b2),
        ratio_eq(a, a2),
        ratio_eq(b, b2),
    ensures
        ratio_eq(ratio_sub(a, b), ratio_sub(a2, b2)),
{
    lemma_distribute(a.n * b.d, b.n * a.d, a2.d * b2.d);
    lemma_distribute(a2.n * b2.d, b2.n * a2.d, a.d * b.d);
    lemma_mul4_rearrange(a.n, b.d, a2.d, b2.d);
    lemma_mul4_rearrange(b.n, a.d, a2.d, b2.d);
    lemma_mul4_rearrange(a2.n, b2.d, a.d, b.d);
    lemma_mul4_rearrange(b2.n, a2.d, a.d, b.d);
    assert((a.n * a2.d) * (b.d * b2.d) == (a2.n * a.d) * (b.d * b2.d)) by (nonlinear_arith)
        requires
            a.n * a2.d == a2.n * a.d,
    {
    }
    assert((b.n * b2.d) * (a.d * a2.d) == (b2.n * b.d) * (a.d * a2.d)) by (nonlinear_arith)
        requires
            b.n * b2.d == b2.n * b.d,
    {
    }
    assert((b.d * b2.d) == (b2.d * b.d) && (a.d * a2.d) == (a2.d * a.d)) by (nonlinear_arith);
    assert((a2.n * a.d) * (b2.d * b.d) == (a2.n * a.d) * (b.d * b2.d));
    assert((b2.n * b.d) * (a2.d * a.d) == (b2.n * b.d) * (a.d * a2.d));
}

pub proof fn lemma_mul_congruence(a: Ratio, b: Ratio, a2: Ratio, b2: Ratio)
    by (nonlinear_arith)
    requires
        ratio_wf(a),
        ratio_wf(b),
        ratio_wf(a2),
        ratio_wf(b2),
        ratio_eq(a, a2),
        ratio_eq(b, b2),
    ensures
        ratio_eq(ratio_mul(a, b), ratio_mul(a2, b2)),
{
    assert((a.n * a2.d) * (b.n * b2.d) == (a2.n * a.d) * (b2.n * b.d));
}

pub proof fn lemma_neg_congruence(a: Ratio, a2: Ratio)
    by (nonlinear_arith)
    requires
        ratio_eq(a, a2),
    ensures
        ratio_eq(ratio_neg(a), ratio_neg(a2)),
{
}

pub proof fn lemma_div_congruence(a: Ratio, b: Ratio, a2: Ratio, b2: Ratio)
    requires
        ratio_wf(a),
        ratio_wf(b),
        ratio_wf(a2),
        ratio_wf(b2),
        ratio_eq(a, a2),
        ratio_eq(b, b2),
        b.n != 0,
        b2.n != 0,
    ensures
        ratio_eq(ratio_div(a, b), ratio_div(a2, b2)),
{
    assert((b.n > 0) == (b2.n > 0)) by (nonlinear_arith)
        requires
            b.n * b2.d == b2.n * b.d && b.d > 0 && b2.d > 0,
    {
    }
    lemma_mul4_rearrange(a.n, b.d, a2.d, b2.n);
    lemma_mul4_rearrange(a2.n, b2.d, a.d, b.n);
    assert((a.n * a2.d) * (b.d * b2.n) == (a2.n * a.d) * (b.d * b2.n)) by (nonlinear_arith)
        requires
            a.n * a2.d == a2.n * a.d,
    {
    }
    assert(b.d * b2.n == b2.d * b.n) by (nonlinear_arith)
        requires
            b.n * b2.d == b2.n * b.d,
    {
    }
    assert((a.n * b.d) * (a2.d * b2.n) == (a2.n * b2.d) * (a.d * b.n));
    if b.n < 0 {
        assert((-(a.n * b.d)) * (-(a2.d * b2.n)) == (a.n * b.d) * (a2.d * b2.n)
            && (-(a2.n * b2.d)) * (-(a.d * b.n)) == (a2.n * b2.d) * (a.d * b.n))
            by (nonlinear_arith);
    }
}

/// The order relations respect exact equality of models.
pub proof fn lemma_order_congruence(a: Ratio, b: Ratio, a2: Ratio, b2: Ratio)
    by (nonlinear_arith)
    requires
        ratio_wf(a),
        ratio_wf(b),
        ratio_wf(a2),
        ratio_wf(b2),
        ratio_eq(a, a2),
        ratio_eq(b, b2),
    ensures
        ratio_lt(a, b) == ratio_lt(a2, b2),
        ratio_le(a, b) == ratio_le(a2, b2),
{
    assert(a.n * a2.d * (b.d * b2.d) == a2.n * a.d * (b.d * b2.d));
    assert(b.n * b2.d * (a.d * a2.d) == b2.n * b.d * (a.d * a2.d));
}

/// Exponentiation by a natural number.
pub open spec fn ratio_pow(r: Ratio, e: nat) -> Ratio
    decreases e,
{
    if e == 0 {
        ratio_int(1)
    } else {
        ratio_mul(ratio_pow(r, (e - 1) as nat), r)
    }
}

pub proof fn lemma_ratio_pow_wf(r: Ratio, e: nat)
    requires
        ratio_wf(r),
    ensures
        ratio_wf(ratio_pow(r, e)),
    decreases e,
{
    if e > 0 {
        lemma_ratio_pow_wf(r, (e - 1) as nat);
        lemma_ratio_ops_wf(ratio_pow(r, (e - 1) as nat), r);
    }
}

/// `s / m` is the sqrt approximation of `x` that the bracket pins down:
/// its square is at most `x`, and `x` lies strictly below the square of
/// the next grid point `(s + 1) / m`.
pub open spec fn sqrt_approx_of(x: Ratio, s: int, m: int) -> bool {
    &&& m > 0
    &&& s >= 0
    &&& s * s * x.d <= x.n * (m * m)
    &&& x.n * (m * m) < (s + 1) * (s + 1) * x.d
}

/// Binary search for the integer square root.
fn isqrt_u128(m: u128) -> (s: u64)
    ensures
        (s as nat) * (s as nat) <= m as nat,
        (m as nat) < ((s as nat) + 1) * ((s as nat) + 1),
{
    let mut lo: u128 = 0;
    let mut hi: u128 = 0x10000000000000000u128;
    proof {
        assert((m as nat) < (hi as nat) * (hi as nat)) by (nonlinear_arith)
            requires
                hi == 0x10000000000000000u128 && m <= u128::MAX,
        {
        }
    }
    while hi - lo > 1
        invariant
            lo < hi <= 0x10000000000000000u128,
            (lo as nat) * (lo as nat) <= m as nat,
            (m as nat) < (hi as nat) * (hi as nat),
        decreases hi - lo,
    {
        let mid = lo + (hi - lo) / 2;
        proof {
            assert(mid * mid <= u128::MAX) by (nonlinear_arith)
                requires
                    mid < 0x10000000000000000u128,
            {
            }
        }
        let sq = mid * mid;
        if sq <= m {
            lo = mid;
        } else {
            hi = mid;
        }
    }
    lo as u64
}

/// Bounds on the grid-refinement factor `k` chosen by `sqrt`: it is the
/// smallest factor that brings `k * isqrt(n * d)` up to `10^9`, and the
/// refined radicand `n * d * k * k` stays well inside `u128`.
proof fn lemma_sqrt_k_bounds(nd: int, snd: int, k: int)
    requires
        nd > 0,
        nd < 0x40000000000000000000000000000000,
        snd >= 0,
        snd * snd <= nd,
        nd < (snd + 1) * (snd + 1),
        k == if snd >= 1000000000 {
            1int
        } else {
            (1000000000 + snd - 1) / snd
        },
    ensures
        1 <= k <= 1000000000,
        k * snd >= 1000000000,
        k * snd <= 1000000000 + snd,
        nd * k * k < 0x40000000000000000000000000000000,
{
    assert(snd >= 1) by (nonlinear_arith)
        requires
            snd >= 0 && snd * snd <= nd && nd < (snd + 1) * (snd + 1) && nd > 0,
    {
    }
    if snd >= 1000000000 {
        assert(nd * 1 * 1 == nd);
    } else {
        let a = 1000000000 + snd - 1;
        vstd::arithmetic::div_mod::lemma_fundamental_div_mod(a, snd);
        vstd::arithmetic::div_mod::lemma_mod_bound(a, snd);
        assert(a == snd * k + a % snd);
        assert(k * snd == a - a % snd) by (nonlinear_arith)
            requires
                a == snd * k + a % snd,
        {
        }
        assert(k * snd >= 1000000000 && k * snd <= 1000000000 + snd);
        assert(k <= 1000000000) by (nonlinear_arith)
            requires
                k * snd <= 1000000000 + snd - 1 && snd >= 1,
        {
        }
        assert(k >= 1) by (nonlinear_arith)
            requires
                k * snd >= 1000000000 && 1 <= snd <= 1000000000,
        {
        }
        assert(nd * k * k < 0x40000000000000000000000000000000) by (nonlinear_arith)
            requires
                nd < (snd + 1) * (snd + 1),
                1 <= snd < 1000000000,
                1 <= k <= 1000000000,
                k * snd <= 1000000000 + snd,
        {
        }
    }
}

/// The refined integer root is at least `10^9` for a positive radicand.
proof fn lemma_sqrt_s2_bounds(nd: int, snd: int, k: int, s2: int, m2: int)
    requires
        nd > 0,
        snd >= 0,
        k >= 1,
        snd * snd <= nd,
        k * snd >= 1000000000,
        m2 == nd * k * k,
        s2 >= 0,
        m2 < (s2 + 1) * (s2 + 1),
    ensures
        s2 >= 1000000000,
{
    assert((k * snd) * (k * snd) <= m2) by (nonlinear_arith)
        requires
            snd * snd <= nd && m2 == nd * k * k && k >= 1 && snd >= 0,
    {
    }
    lemma_sqrt_monotone(k * snd, s2);
}

/// The returned grid value `s2 / dk` brackets the input from both sides,
/// and its denominator fits in an `i64`.
proof fn lemma_sqrt_result_bracket(
    x: Ratio,
    nd: int,
    snd: int,
    k: int,
    s2: int,
    m2: int,
    dk: int,
)
    requires
        x.n > 0,
        x.d > 0,
        x.n <= i64::MAX as int,
        x.d <= i64::MAX as int,
        nd == x.n * x.d,
        snd >= 0,
        snd * snd <= nd,
        nd < (snd + 1) * (snd + 1),
        1 <= k <= 1000000000,
        k * snd <= 1000000000 + snd,
        k > 1 ==> snd < 1000000000,
        m2 == nd * k * k,
        s2 >= 0,
        s2 * s2 <= m2,
        m2 < (s2 + 1) * (s2 + 1),
        dk == x.d * k,
    ensures
        sqrt_approx_of(x, s2, dk),
        0 < dk <= i64::MAX as int,
{
    assert(dk > 0) by (nonlinear_arith)
        requires
            dk == x.d * k && x.d > 0 && k >= 1,
    {
    }
    if k == 1 {
        assert(dk == x.d);
    } else {
        assert(x.d <= nd) by (nonlinear_arith)
            requires
                nd == x.n * x.d && x.n >= 1 && x.d > 0,
        {
        }
        assert(snd >= 1) by (nonlinear_arith)
            requires
                snd >= 0 && snd * snd <= nd && nd < (snd + 1) * (snd + 1) && nd > 0,
        {
        }
        assert(dk <= i64::MAX as int) by (nonlinear_arith)
            requires
                dk == x.d * k,
                x.d <= nd,
                nd < (snd + 1) * (snd + 1),
                1 <= snd < 1000000000,
                1 <= k <= 1000000000,
                k * snd <= 1000000000 + snd,
        {
        }
    }
    assert(s2 * s2 * x.d <= x.n * (dk * dk)) by (nonlinear_arith)
        requires
            s2 * s2 <= m2,
            m2 == x.n * x.d * k * k,
            dk == x.d * k,
            x.d > 0,
    {
    }
    assert(x.n * (dk * dk) < (s2 + 1) * (s2 + 1) * x.d) by (nonlinear_arith)
        requires
            m2 < (s2 + 1) * (s2 + 1),
            m2 == x.n * x.d * k * k,
            dk == x.d * k,
            x.d > 0,
    {
    }
}

/// A square-root bracket transfers to any model of the same value.
pub proof fn lemma_sqrt_approx_congruence(x: Ratio, x2: Ratio, s: int, m: int)
    requires
        ratio_wf(x),
        ratio_wf(x2),
        ratio_eq(x, x2),
        sqrt_approx_of(x, s, m),
    ensures
        sqrt_approx_of(x2, s, m),
{
    assert(s * s * x2.d <= x2.n * (m * m)) by (nonlinear_arith)
        requires
            s * s * x.d <= x.n * (m * m),
            x.n * x2.d == x2.n * x.d,
            x.d > 0,
            x2.d > 0,
            m > 0,
    {
    }
    assert(x2.n * (m * m) < (s + 1) * (s + 1) * x2.d) by (nonlinear_arith)
        requires
            x.n * (m * m) < (s + 1) * (s + 1) * x.d,
            x.n * x2.d == x2.n * x.d,
            x.d > 0,
            x2.d > 0,
            m > 0,
    {
    }
}

/// Squaring is monotone, so an integer whose square is bounded by another
/// square is itself bounded.
proof fn lemma_sqrt_monotone(a: int, b: int)
    by (nonlinear_arith)
    requires
        a >= 0,
        b >= 0,
        a * a < (b + 1) * (b + 1),
    ensures
        a <= b,
{
}

impl Rat {
    /// Rational square-root approximation.
    ///
    /// For a nonnegative scalar `x` this returns a grid value `s / m` with
    /// `(s/m)^2 <= x < ((s+1)/m)^2`. For positive `x` the grid is chosen so
    /// fine that `s >= 10^9`, which makes the relative error of the
    /// approximation at most one part in `10^9`. Zero is returned exactly.
    pub fn sqrt(self) -> (r: Option<Rat>)
        requires
            self.wf(),
            self@.n >= 0,
        ensures
            r is Some,
            ({
                match r {
                    Some(c) => {
                        &&& c.wf()
                        &&& c@ == sqrt_val(self@)
                        &&& exists|s: int, m: int|
                            sqrt_approx_of(self@, s, m) && ratio_eq(c@, Ratio { n: s, d: m })
                                && (self@.n > 0 ==> s >= 1000000000)
                        &&& (self@.n == 0 ==> c@.n == 0)
                        &&& (self@.n > 0 ==> c@.n > 0)
                    },
                    None => false,
                }
            }),
    {
        if self.num == 0 {
            proof {
                assert(sqrt_approx_of(self@, 0, 1)) by (nonlinear_arith)
                    requires
                        self@.n == 0 && self@.d > 0,
                {
                }
            }
            return Some(Rat { num: 0, den: 1 });
        }
        let n = self.num;
        let d = self.den;
        proof {
            lemma_abs_mul_bound(n as int, d as int, i64::MAX as int, i64::MAX as int);
        }
        let nd: i128 = n as i128 * d as i128;
        proof {
            assert(nd > 0) by (nonlinear_arith)
                requires
                    n > 0 && d > 0 && nd == n as int * d as int,
            {
            }
        }
        let snd = isqrt_u128(nd as u128);
        proof {
            assert(snd >= 1) by (nonlinear_arith)
                requires
                    (nd as int) > 0 && (nd as int) < ((snd as int) + 1) * ((snd as int) + 1)
                        && snd >= 0,
            {
            }
        }
        let k: u64 = if snd >= 1000000000u64 {
            1
        } else {
            (1000000000u64 + snd - 1) / snd
        };
        proof {
            lemma_sqrt_k_bounds(nd as int, snd as int, k as int);
        }
        proof {
            assert(nd as int * (k as int) <= nd as int * (k as int) * (k as int))
                by (nonlinear_arith)
                requires
                    nd > 0 && k >= 1,
            {
            }
        }
        let m2: u128 = (nd as u128) * (k as u128) * (k as u128);
        let s2 = isqrt_u128(m2);
        proof {
            lemma_sqrt_s2_bounds(nd as int, snd as int, k as int, s2 as int, m2 as int);
            assert((s2 as int) <= i64::MAX as int) by (nonlinear_arith)
                requires
                    (s2 as int) * (s2 as int) <= (m2 as int) && (m2 as int)
                        < 0x40000000000000000000000000000000 && s2 >= 0,
            {
            }
            lemma_int_sqrt_eq(nd as int, snd as int);
            lemma_int_sqrt_eq((nd as int) * (k as int) * (k as int), s2 as int);
        }
        proof {
            assert((d as int) * (k as int) <= (i64::MAX as int) * 1000000000) by (nonlinear_arith)
                requires
                    0 < d <= i64::MAX && 1 <= k <= 1000000000,
            {
            }
        }
        let dk: i128 = d as i128 * k as i128;
        proof {
            lemma_sqrt_result_bracket(
                self@,
                nd as int,
                snd as int,
                k as int,
                s2 as int,
                m2 as int,
                dk as int,
            );
        }
        let c = Rat { num: s2 as i64, den: dk as i64 };
        proof {
            assert(ratio_eq(c@, Ratio { n: s2 as int, d: dk as int }));
        }
        Some(c)
    }
}

/// The exact result of an operation is representable: its lowest-terms
/// form fits in 64-bit components.
pub open spec fn scalar_fits(r: Ratio) -> bool {
    fits_scalar(norm(r).n) && fits_scalar(norm(r).d)
}

/// The exact reduced sum, if it is representable. These `try_` mirrors
/// say, value for value, what each operation computes and exactly when
/// it reports `None`; the contracts of composite functions chain them.
pub open spec fn try_add(a: Ratio, b: Ratio) -> Option<Ratio> {
    let v = norm(ratio_add(a, b));
    if fits_scalar(v.n) && fits_scalar(v.d) {
        Some(v)
    } else {
        None
    }
}

pub open spec fn try_sub(a: Ratio, b: Ratio) -> Option<Ratio> {
    let v = norm(ratio_sub(a, b));
    if fits_scalar(v.n) && fits_scalar(v.d) {
        Some(v)
    } else {
        None
    }
}

pub open spec fn try_mul(a: Ratio, b: Ratio) -> Option<Ratio> {
    let v = norm(ratio_mul(a, b));
    if fits_scalar(v.n) && fits_scalar(v.d) {
        Some(v)
    } else {
        None
    }
}

pub open spec fn try_div(a: Ratio, b: Ratio) -> Option<Ratio> {
    let v = norm(ratio_div(a, b));
    if fits_scalar(v.n) && fits_scalar(v.d) {
        Some(v)
    } else {
        None
    }
}

/// Exponentiation by repeated multiplication, if every partial product
/// is representable.
pub open spec fn try_pow(a: Ratio, e: nat) -> Option<Ratio>
    decreases e,
{
    if e == 0 {
        Some(ratio_int(1))
    } else {
        match try_pow(a, (e - 1) as nat) {
            None => None,
            Some(p) => try_mul(p, a),
        }
    }
}

/// Once a partial power is not representable, no longer power is.
pub proof fn lemma_try_pow_none(a: Ratio, i: nat, e: nat)
    requires
        i <= e,
        try_pow(a, i) is None,
    ensures
        try_pow(a, e) is None,
    decreases e,
{
    if e > i {
        lemma_try_pow_none(a, i, (e - 1) as nat);
    }
}

/// The integer square root: the unique nonnegative value whose square
/// brackets the argument.
pub open spec fn int_sqrt(m: int) -> int {
    choose|s: int| 0 <= s && #[trigger] (s * s) <= m && m < (s + 1) * (s + 1)
}

/// Any value meeting the bracket is the integer square root.
pub proof fn lemma_int_sqrt_eq(m: int, s: int)
    requires
        0 <= s,
        s * s <= m,
        m < (s + 1) * (s + 1),
    ensures
        int_sqrt(m) == s,
{
    assert(0 <= s && s * s <= m && m < (s + 1) * (s + 1));
    let s2 = int_sqrt(m);
    assert(0 <= s2 && s2 * s2 <= m && m < (s2 + 1) * (s2 + 1));
    assert(s2 == s) by (nonlinear_arith)
        requires
            0 <= s,
            0 <= s2,
            s * s <= m,
            m < (s + 1) * (s + 1),
            s2 * s2 <= m,
            m < (s2 + 1) * (s2 + 1),
    {
    }
}

/// The value `sqrt` computes: zero for zero, and otherwise the grid
/// value chosen by refining the radicand `n * d` by the factor `k` that
/// brings the root up to `10^9`. The square root always succeeds, so the
/// mirror is total.
pub open spec fn sqrt_val(x: Ratio) -> Ratio {
    if x.n == 0 {
        ratio_int(0)
    } else {
        let nd = x.n * x.d;
        let snd = int_sqrt(nd);
        let k = if snd >= 1000000000 {
            1int
        } else {
            (1000000000 + snd - 1) / snd
        };
        Ratio { n: int_sqrt(nd * k * k), d: x.d * k }
    }
}

/// One chaining step: an exec result equal to the sum of two intermediate
/// values is also equal to the sum of the ideal values they stand for.
pub proof fn lemma_add_eq_chain(r: Ratio, a: Ratio, b: Ratio, a2: Ratio, b2: Ratio)
    requires
        ratio_wf(r),
        ratio_wf(a),
        ratio_wf(b),
        ratio_wf(a2),
        ratio_wf(b2),
        ratio_eq(r, ratio_add(a, b)),
        ratio_eq(a, a2),
        ratio_eq(b, b2),
    ensures
        ratio_eq(r, ratio_add(a2, b2)),
{
    lemma_add_congruence(a, b, a2, b2);
    lemma_ratio_ops_wf(a, b);
    lemma_ratio_ops_wf(a2, b2);
    lemma_ratio_eq_trans(r, ratio_add(a, b), ratio_add(a2, b2));
}

pub proof fn lemma_sub_eq_chain(r: Ratio, a: Ratio, b: Ratio, a2: Ratio, b2: Ratio)
    requires
        ratio_wf(r),
        ratio_wf(a),
        ratio_wf(b),
        ratio_wf(a2),
        ratio_wf(b2),
        ratio_eq(r, ratio_sub(a, b)),
        ratio_eq(a, a2),
        ratio_eq(b, b2),
    ensures
        ratio_eq(r, ratio_sub(a2, b2)),
{
    lemma_sub_congruence(a, b, a2, b2);
    lemma_ratio_ops_wf(a, b);
    lemma_ratio_ops_wf(a2, b2);
    lemma_ratio_eq_trans(r, ratio_sub(a, b), ratio_sub(a2, b2));
}

pub proof fn lemma_mul_eq_chain(r: Ratio, a: Ratio, b: Ratio, a2: Ratio, b2: Ratio)
    requires
        ratio_wf(r),
        ratio_wf(a),
        ratio_wf(b),
        ratio_wf(a2),
        ratio_wf(b2),
        ratio_eq(r, ratio_mul(a, b)),
        ratio_eq(a, a2),
        ratio_eq(b, b2),
    ensures
        ratio_eq(r, ratio_mul(a2, b2)),
{
    lemma_mul_congruence(a, b, a2, b2);
    lemma_ratio_ops_wf(a, b);
    lemma_ratio_ops_wf(a2, b2);
    lemma_ratio_eq_trans(r, ratio_mul(a, b), ratio_mul(a2, b2));
}

pub proof fn lemma_div_eq_chain(r: Ratio, a: Ratio, b: Ratio, a2: Ratio, b2: Ratio)
    requires
        ratio_wf(r),
        ratio_wf(a),
        ratio_wf(b),
        ratio_wf(a2),
        ratio_wf(b2),
        ratio_eq(r, ratio_div(a, b)),
        ratio_eq(a, a2),
        ratio_eq(b, b2),
        b.n != 0,
        b2.n != 0,
    ensures
        ratio_eq(r, ratio_div(a2, b2)),
{
    lemma_div_congruence(a, b, a2, b2);
    lemma_ratio_ops_wf(a, b);
    lemma_ratio_ops_wf(a2, b2);
    lemma_ratio_eq_trans(r, ratio_div(a, b), ratio_div(a2, b2));
}

/// A zero numerator is preserved across exact equality.
pub proof fn lemma_eq_zero(a: Ratio, b: Ratio)
    by (nonlinear_arith)
    requires
        ratio_wf(a),
        ratio_wf(b),
        ratio_eq(a, b),
    ensures
        (a.n == 0) == (b.n == 0),
        (a.n > 0) == (b.n > 0),
        (a.n < 0) == (b.n < 0),
{
}

impl Rat {
    /// Exponentiation by a nonnegative integer, by repeated multiplication.
    pub fn pow(self, e: u32) -> (r: Option<Rat>)
        requires
            self.wf(),
        ensures
            ({
                match r {
                    Some(c) => c.wf() && ratio_eq(c@, ratio_pow(self@, e as nat)) && Some(c@)
                        == try_pow(self@, e as nat),
                    None => try_pow(self@, e as nat) is None,
                }
            }),
    {
        let mut acc = Rat::one();
        let mut i: u32 = 0;
        while i < e
            invariant
                self.wf(),
                acc.wf(),
                i <= e,
                ratio_eq(acc@, ratio_pow(self@, i as nat)),
                Some(acc@) == try_pow(self@, i as nat),
            decreases e - i,
        {
            proof {
                lemma_ratio_pow_wf(self@, i as nat);
                lemma_ratio_pow_wf(self@, (i + 1) as nat);
            }
            let next = match acc.mul(self) {
                Some(v) => v,
                None => {
                    proof {
                        assert(try_pow(self@, (i + 1) as nat) is None);
                        lemma_try_pow_none(self@, (i + 1) as nat, e as nat);
                    }
                    return None;
                },
            };
            proof {
                lemma_mul_eq_chain(next@, acc@, self@, ratio_pow(self@, i as nat), self@);
            }
            acc = next;
            i = i + 1;
        }
        Some(acc)
    }
}

/// The order relations are transitive across well-formed models.
pub proof fn lemma_order_trans(a: Ratio, b: Ratio, c: Ratio)
    by (nonlinear_arith)
    requires
        ratio_wf(a),
        ratio_wf(b),
        ratio_wf(c),
    ensures
        (ratio_le(a, b) && ratio_le(b, c)) ==> ratio_le(a, c),
        (ratio_lt(a, b) && ratio_le(b, c)) ==> ratio_lt(a, c),
        (ratio_le(a, b) && ratio_lt(b, c)) ==> ratio_lt(a, c),
{
}

/// Adding a scalar whose numerator is zero changes nothing.
pub proof fn lemma_add_zero_num(a: Ratio, z: Ratio)
    by (nonlinear_arith)
    requires
        ratio_wf(a),
        ratio_wf(z),
        z.n == 0,
    ensures
        ratio_eq(ratio_add(a, z), a),
        ratio_eq(ratio_add(z, a), a),
        ratio_wf(ratio_add(a, z)),
        ratio_wf(ratio_add(z, a)),
{
}

/// Exponentiation respects exact equality of the base.
pub proof fn lemma_pow_congruence(a: Ratio, a2: Ratio, e: nat)
    requires
        ratio_wf(a),
        ratio_wf(a2),
        ratio_eq(a, a2),
    ensures
        ratio_eq(ratio_pow(a, e), ratio_pow(a2, e)),
    decreases e,
{
    if e > 0 {
        lemma_pow_congruence(a, a2, (e - 1) as nat);
        lemma_ratio_pow_wf(a, (e - 1) as nat);
        lemma_ratio_pow_wf(a2, (e - 1) as nat);
        lemma_mul_congruence(ratio_pow(a, (e - 1) as nat), a, ratio_pow(a2, (e - 1) as nat), a2);
    }
}

/// The tolerance bound as a scalar model.
pub open spec fn eps_ratio() -> Ratio {
    Ratio { n: 1, d: 100000 }
}

/// Tolerance equality, rephrased as two strict order comparisons.
pub proof fn lemma_approx_as_lt(a: Ratio, b: Ratio)
    by (nonlinear_arith)
    requires
        ratio_wf(a),
        ratio_wf(b),
    ensures
        ratio_approx_eq(a, b) == (ratio_lt(ratio_sub(a, b), eps_ratio()) && ratio_lt(
            ratio_sub(b, a),
            eps_ratio(),
        )),
{
}

/// Tolerance equality respects exact equality of models.
pub proof fn lemma_approx_congruence(a: Ratio, b: Ratio, a2: Ratio, b2: Ratio)
    requires
        ratio_wf(a),
        ratio_wf(b),
        ratio_wf(a2),
        ratio_wf(b2),
        ratio_eq(a, a2),
        ratio_eq(b, b2),
    ensures
        ratio_approx_eq(a, b) == ratio_approx_eq(a2, b2),
{
    lemma_approx_as_lt(a, b);
    lemma_approx_as_lt(a2, b2);
    lemma_sub_congruence(a, b, a2, b2);
    lemma_sub_congruence(b, a, b2, a2);
    lemma_ratio_ops_wf(a, b);
    lemma_ratio_ops_wf(b, a);
    lemma_ratio_ops_wf(a2, b2);
    lemma_ratio_ops_wf(b2, a2);
    lemma_order_congruence(ratio_sub(a, b), eps_ratio(), ratio_sub(a2, b2), eps_ratio());
    lemma_order_congruence(ratio_sub(b, a), eps_ratio(), ratio_sub(b2, a2), eps_ratio());
}

/// Moving a sign out of a product.
pub proof fn lemma_neg_mul(a: int, b: int)
    by (nonlinear_arith)
    ensures
        (-a) * b == -(a * b),
        a * (-b) == -(a * b),
{
}

/// Scalars that are exactly equal are in particular tolerance-equal.
pub proof fn lemma_eq_implies_approx(a: Ratio, b: Ratio)
    by (nonlinear_arith)
    requires
        ratio_wf(a),
        ratio_wf(b),
        ratio_eq(a, b),
    ensures
        ratio_approx_eq(a, b),
{
}

} // verus!
