//! Saturating decimal fixed-point numbers.
//!
//! A [`Fixed`] holds a signed 64-bit count of millionths. Every operation is
//! total: a result that does not fit is clamped to the nearest representable
//! value, and products and quotients are rounded toward zero.

use vstd::prelude::*;

verus! {

/// Number of raw units in one whole unit.
pub const SCALE: i64 = 1_000_000;

/// Times, in seconds.
pub type Time = Fixed;

/// Lengths and coordinates, in world units.
pub type Coord = Fixed;

/// Clamps an integer into the range of `i64`.
pub open spec fn sat(x: int) -> int {
    if x < i64::MIN as int {
        i64::MIN as int
    } else if x > i64::MAX as int {
        i64::MAX as int
    } else {
        x
    }
}

/// Quotient of `a` by a non-zero `b`, rounded toward zero.
pub open spec fn tdiv(a: int, b: int) -> int
    recommends
        b != 0,
{
    if a >= 0 {
        if b > 0 {
            a / b
        } else {
            -(a / (-b))
        }
    } else {
        if b > 0 {
            -((-a) / b)
        } else {
            (-a) / (-b)
        }
    }
}

/// Absolute value of an integer.
pub open spec fn mag(x: int) -> int {
    if x < 0 {
        -x
    } else {
        x
    }
}

/// Raw result of multiplying two fixed-point numbers.
pub open spec fn mul_raw(a: int, b: int) -> int {
    sat(tdiv(a * b, SCALE as int))
}

/// Raw result of dividing two fixed-point numbers.
pub open spec fn div_raw(a: int, b: int) -> int
    recommends
        b != 0,
{
    sat(tdiv(a * (SCALE as int), b))
}

/// A fixed-point number: `raw` millionths.
#[derive(Clone, Copy, Debug, PartialEq, Eq, Hash, Structural)]
pub struct Fixed {
    pub raw: i64,
}

/// Clamps a wide intermediate result into an `i64`.
pub fn saturate(x: i128) -> (r: i64)
    ensures
        r as int == sat(x as int),
{
    if x < i64::MIN as i128 {
        i64::MIN
    } else if x > i64::MAX as i128 {
        i64::MAX
    } else {
        x as i64
    }
}

/// The product of two `i64` values fits in an `i128`.
pub proof fn lemma_product_fits(a: int, b: int)
    requires
        i64::MIN <= a <= i64::MAX,
        i64::MIN <= b <= i64::MAX,
    ensures
        -0x4000_0000_0000_0000_0000_0000_0000_0000 <= a * b
            <= 0x4000_0000_0000_0000_0000_0000_0000_0000,
{
    assert(-0x4000_0000_0000_0000_0000_0000_0000_0000 <= a * b
        <= 0x4000_0000_0000_0000_0000_0000_0000_0000) by (nonlinear_arith)
        requires
            -0x8000_0000_0000_0000 <= a <= 0x8000_0000_0000_0000,
            -0x8000_0000_0000_0000 <= b <= 0x8000_0000_0000_0000,
    ;
}

/// Truncating division never grows the magnitude and keeps the sign.
pub proof fn lemma_tdiv_bounds(a: int, b: int)
    requires
        b > 0,
    ensures
        mag(tdiv(a, b)) == mag(a) / b,
        mag(tdiv(a, b)) <= mag(a),
        a >= 0 ==> tdiv(a, b) >= 0,
        a <= 0 ==> tdiv(a, b) <= 0,
        tdiv(-a, b) == -tdiv(a, b),
{
    let m = mag(a);
    assert(0 <= m / b <= m) by (nonlinear_arith)
        requires
            m >= 0,
            b > 0,
    ;
}

/// Truncating division is monotone in the dividend.
pub proof fn lemma_tdiv_monotone(a: int, c: int, b: int)
    requires
        b > 0,
        a <= c,
    ensures
        tdiv(a, b) <= tdiv(c, b),
{
    lemma_tdiv_bounds(a, b);
    lemma_tdiv_bounds(c, b);
    if a >= 0 {
        assert(a / b <= c / b) by (nonlinear_arith)
            requires
                0 <= a <= c,
                b > 0,
        ;
    } else if c < 0 {
        assert((-c) / b <= (-a) / b) by (nonlinear_arith)
            requires
                0 <= -c <= -a,
                b > 0,
        ;
    }
}

/// What truncating division leaves over is smaller than the divisor.
pub proof fn lemma_tdiv_remainder(a: int, b: int)
    requires
        b != 0,
    ensures
        mag(a - b * tdiv(a, b)) < mag(b),
{
    let x = mag(a);
    let d = mag(b);
    let k = x / d;
    let r = x - k * d;
    vstd::arithmetic::div_mod::lemma_remainder(x, d);
    let q = tdiv(a, b);
    assert(mag(a - b * q) == r) by (nonlinear_arith)
        requires
            r == x - k * d,
            (a >= 0 && x == a) || (a < 0 && x == -a),
            (b > 0 && d == b) || (b < 0 && d == -b),
            ((a >= 0) == (b > 0)) ==> q == k,
            ((a >= 0) != (b > 0)) ==> q == -k,
            0 <= r,
    ;
}

/// A product has the sign that its factors give it.
pub proof fn lemma_mul_raw_sign(a: int, b: int)
    ensures
        (a >= 0 && b >= 0) || (a <= 0 && b <= 0) ==> mul_raw(a, b) >= 0,
        (a >= 0 && b <= 0) || (a <= 0 && b >= 0) ==> mul_raw(a, b) <= 0,
        a == 0 || b == 0 ==> mul_raw(a, b) == 0,
{
    let p = a * b;
    assert((a >= 0 && b >= 0) || (a <= 0 && b <= 0) ==> p >= 0) by (nonlinear_arith)
        requires
            p == a * b,
    ;
    assert((a >= 0 && b <= 0) || (a <= 0 && b >= 0) ==> p <= 0) by (nonlinear_arith)
        requires
            p == a * b,
    ;
    lemma_tdiv_bounds(p, SCALE as int);
}

/// Multiplying by a factor between minus one and one never grows the
/// magnitude.
pub proof fn lemma_mul_raw_shrinks(a: int, f: int)
    requires
        -(SCALE as int) <= f <= SCALE as int,
        i64::MIN <= a <= i64::MAX,
    ensures
        mag(mul_raw(a, f)) <= mag(a),
{
    let s = SCALE as int;
    let ma = mag(a);
    let mf = mag(f);
    let p = ma * mf;
    assert(mag(a * f) == p) by (nonlinear_arith)
        requires
            p == ma * mf,
            ma == mag(a),
            mf == mag(f),
    ;
    assert(0 <= p <= ma * s) by (nonlinear_arith)
        requires
            p == ma * mf,
            0 <= mf <= s,
            ma >= 0,
    ;
    lemma_tdiv_bounds(a * f, s);
    assert(p / s <= ma) by (nonlinear_arith)
        requires
            0 <= p <= ma * s,
            s > 0,
    ;
}

/// With a non-negative second factor a product is monotone in the first.
pub proof fn lemma_mul_raw_monotone(a: int, c: int, k: int)
    requires
        a <= c,
        k >= 0,
    ensures
        mul_raw(a, k) <= mul_raw(c, k),
{
    assert(a * k <= c * k) by (nonlinear_arith)
        requires
            a <= c,
            k >= 0,
    ;
    lemma_tdiv_monotone(a * k, c * k, SCALE as int);
}

/// A square is monotone in the magnitude of its argument.
pub proof fn lemma_square_raw_monotone(a: int, c: int)
    requires
        mag(a) <= mag(c),
    ensures
        0 <= mul_raw(a, a) <= mul_raw(c, c),
{
    let ma = mag(a);
    let mc = mag(c);
    assert(0 <= a * a && a * a <= c * c) by (nonlinear_arith)
        requires
            ma == mag(a),
            mc == mag(c),
            ma <= mc,
    ;
    lemma_tdiv_monotone(a * a, c * c, SCALE as int);
    lemma_tdiv_bounds(a * a, SCALE as int);
}

/// Whether `r` is the integer square root of `n`: the largest integer whose
/// square does not exceed `n`.
pub open spec fn is_floor_sqrt(n: int, r: int) -> bool {
    0 <= r && r * r <= n && n < (r + 1) * (r + 1)
}

/// The integer square root of a non-negative `n`.
pub open spec fn floor_sqrt(n: int) -> int {
    choose|r: int| is_floor_sqrt(n, r)
}

/// The least integer whose square is at least `n`.
pub open spec fn ceil_sqrt(n: int) -> int {
    let r = floor_sqrt(n);
    if r * r == n {
        r
    } else {
        r + 1
    }
}

/// At most one integer is the square root of `n`.
pub proof fn lemma_floor_sqrt_unique(n: int, r1: int, r2: int)
    requires
        is_floor_sqrt(n, r1),
        is_floor_sqrt(n, r2),
    ensures
        r1 == r2,
{
    if r1 < r2 {
        assert((r1 + 1) * (r1 + 1) <= r2 * r2) by (nonlinear_arith)
            requires
                0 <= r1 + 1 <= r2,
        ;
    } else if r2 < r1 {
        assert((r2 + 1) * (r2 + 1) <= r1 * r1) by (nonlinear_arith)
            requires
                0 <= r2 + 1 <= r1,
        ;
    }
}

/// Every non-negative integer has an integer square root.
pub proof fn lemma_floor_sqrt(n: int)
    requires
        n >= 0,
    ensures
        is_floor_sqrt(n, floor_sqrt(n)),
    decreases n,
{
    if n == 0 {
        assert(is_floor_sqrt(0, 0));
    } else {
        lemma_floor_sqrt(n - 1);
        let r = floor_sqrt(n - 1);
        if (r + 1) * (r + 1) <= n {
            assert((r + 1) * (r + 1) < (r + 2) * (r + 2)) by (nonlinear_arith)
                requires
                    r >= 0,
            ;
            assert(is_floor_sqrt(n, r + 1));
        } else {
            assert(is_floor_sqrt(n, r));
        }
    }
}

/// What identifies the integer square root.
pub proof fn lemma_floor_sqrt_is(n: int, r: int)
    requires
        is_floor_sqrt(n, r),
    ensures
        floor_sqrt(n) == r,
{
    lemma_floor_sqrt_unique(n, r, floor_sqrt(n));
}

/// The rounded-up square root bounds `n` from above and is positive for a
/// positive `n`.
pub proof fn lemma_ceil_sqrt(n: int)
    requires
        n >= 0,
    ensures
        ceil_sqrt(n) >= 0,
        n <= ceil_sqrt(n) * ceil_sqrt(n),
        n > 0 ==> ceil_sqrt(n) > 0,
        floor_sqrt(n) <= ceil_sqrt(n) <= floor_sqrt(n) + 1,
{
    lemma_floor_sqrt(n);
    let r = floor_sqrt(n);
    if r == 0 {
        assert(r * r == 0) by (nonlinear_arith)
            requires
                r == 0,
        ;
    }
}

/// Integer square root of `n`.
pub fn isqrt(n: u128) -> (r: u64)
    ensures
        r as int == floor_sqrt(n as int),
{
    let mut lo: u128 = 0;
    let mut hi: u128 = 0x1_0000_0000_0000_0000;
    assert(n < hi * hi) by (nonlinear_arith)
        requires
            hi == 0x1_0000_0000_0000_0000,
            n <= 0xffff_ffff_ffff_ffff_ffff_ffff_ffff_ffff,
    ;
    while hi - lo > 1
        invariant
            lo < hi <= 0x1_0000_0000_0000_0000,
            lo * lo <= n < hi * hi,
        decreases hi - lo,
    {
        let mid: u128 = lo + (hi - lo) / 2;
        assert(mid * mid <= 0xffff_ffff_ffff_ffff_ffff_ffff_ffff_ffff) by (nonlinear_arith)
            requires
                0 <= mid <= 0xffff_ffff_ffff_ffff,
        ;
        if mid * mid <= n {
            lo = mid;
        } else {
            hi = mid;
        }
    }
    proof {
        assert(hi == lo + 1);
        lemma_floor_sqrt_is(n as int, lo as int);
    }
    lo as u64
}

impl Fixed {
    /// The number zero.
    pub open spec fn spec_zero() -> Fixed {
        Fixed { raw: 0 }
    }

    /// The number one.
    pub open spec fn spec_one() -> Fixed {
        Fixed { raw: SCALE }
    }

    /// The whole number `n`, clamped.
    pub open spec fn spec_from_int(n: int) -> Fixed {
        Fixed { raw: sat(n * (SCALE as int)) as i64 }
    }

    /// Sum, clamped.
    pub open spec fn spec_add(self, other: Fixed) -> Fixed {
        Fixed { raw: sat(self.raw + other.raw) as i64 }
    }

    /// Difference, clamped.
    pub open spec fn spec_sub(self, other: Fixed) -> Fixed {
        Fixed { raw: sat(self.raw - other.raw) as i64 }
    }

    /// Negation, clamped.
    pub open spec fn spec_neg(self) -> Fixed {
        Fixed { raw: sat(-self.raw) as i64 }
    }

    /// Absolute value, clamped.
    pub open spec fn spec_abs(self) -> Fixed {
        Fixed { raw: sat(mag(self.raw as int)) as i64 }
    }

    /// Product, rounded toward zero and clamped.
    pub open spec fn spec_mul(self, other: Fixed) -> Fixed {
        Fixed { raw: mul_raw(self.raw as int, other.raw as int) as i64 }
    }

    /// Quotient, rounded toward zero and clamped.
    pub open spec fn spec_div(self, other: Fixed) -> Fixed
        recommends
            other.raw != 0,
    {
        Fixed { raw: div_raw(self.raw as int, other.raw as int) as i64 }
    }

    /// The smaller of the two.
    pub open spec fn spec_min(self, other: Fixed) -> Fixed {
        if other.raw < self.raw {
            other
        } else {
            self
        }
    }

    /// The larger of the two.
    pub open spec fn spec_max(self, other: Fixed) -> Fixed {
        if other.raw > self.raw {
            other
        } else {
            self
        }
    }

    /// `self` limited to `[-bound, bound]`: raised to `-bound` first, then
    /// lowered to `bound`.
    pub open spec fn spec_clamp_abs(self, bound: Fixed) -> Fixed {
        self.spec_max(bound.spec_neg()).spec_min(bound)
    }

    /// Square root rounded down to a millionth; zero for a negative number.
    pub open spec fn spec_sqrt(self) -> Fixed {
        if self.raw <= 0 {
            Fixed { raw: 0 }
        } else {
            Fixed { raw: floor_sqrt(self.raw * (SCALE as int)) as i64 }
        }
    }

    /// Largest whole number not above `self`.
    pub open spec fn spec_floor(self) -> Fixed {
        Fixed { raw: sat((self.raw as int / (SCALE as int)) * (SCALE as int)) as i64 }
    }

    /// Whether the number lies strictly between the two ends of the
    /// representable range, so that no clamping produced it.
    pub open spec fn interior(self) -> bool {
        i64::MIN < self.raw < i64::MAX
    }

    /// Zero.
    #[verifier::when_used_as_spec(spec_zero)]
    pub fn zero() -> (r: Fixed)
        ensures
            r == Fixed::spec_zero(),
    {
        Fixed { raw: 0 }
    }

    /// One.
    #[verifier::when_used_as_spec(spec_one)]
    pub fn one() -> (r: Fixed)
        ensures
            r == Fixed::spec_one(),
    {
        Fixed { raw: SCALE }
    }

    /// The number with the given count of millionths.
    pub fn from_raw(raw: i64) -> (r: Fixed)
        ensures
            r.raw == raw,
    {
        Fixed { raw }
    }

    /// The whole number `n`, clamped to the representable range.
    pub fn from_int(n: i64) -> (r: Fixed)
        ensures
            r == Fixed::spec_from_int(n as int),
    {
        proof {
            lemma_product_fits(n as int, SCALE as int);
        }
        let wide: i128 = (n as i128) * (SCALE as i128);
        Fixed { raw: saturate(wide) }
    }

    /// Saturating sum.
    #[verifier::when_used_as_spec(spec_add)]
    pub fn add(self, other: Fixed) -> (r: Fixed)
        ensures
            r == self.spec_add(other),
    {
        let wide: i128 = (self.raw as i128) + (other.raw as i128);
        Fixed { raw: saturate(wide) }
    }

    /// Saturating difference.
    #[verifier::when_used_as_spec(spec_sub)]
    pub fn sub(self, other: Fixed) -> (r: Fixed)
        ensures
            r == self.spec_sub(other),
    {
        let wide: i128 = (self.raw as i128) - (other.raw as i128);
        Fixed { raw: saturate(wide) }
    }

    /// Saturating negation.
    #[verifier::when_used_as_spec(spec_neg)]
    pub fn neg(self) -> (r: Fixed)
        ensures
            r == self.spec_neg(),
    {
        let wide: i128 = -(self.raw as i128);
        Fixed { raw: saturate(wide) }
    }

    /// Saturating absolute value.
    #[verifier::when_used_as_spec(spec_abs)]
    pub fn abs(self) -> (r: Fixed)
        ensures
            r == self.spec_abs(),
    {
        let wide: i128 = if self.raw < 0 {
            -(self.raw as i128)
        } else {
            self.raw as i128
        };
        Fixed { raw: saturate(wide) }
    }

    /// Product, rounded toward zero and clamped.
    #[verifier::when_used_as_spec(spec_mul)]
    pub fn mul(self, other: Fixed) -> (r: Fixed)
        ensures
            r == self.spec_mul(other),
    {
        proof {
            lemma_product_fits(self.raw as int, other.raw as int);
        }
        let wide: i128 = (self.raw as i128) * (other.raw as i128);
        let quotient: i128 = wide / (SCALE as i128);
        Fixed { raw: saturate(quotient) }
    }

    /// Quotient, rounded toward zero and clamped.
    #[verifier::when_used_as_spec(spec_div)]
    pub fn div(self, other: Fixed) -> (r: Fixed)
        requires
            other.raw != 0,
        ensures
            r == self.spec_div(other),
    {
        proof {
            lemma_product_fits(self.raw as int, SCALE as int);
        }
        let wide: i128 = (self.raw as i128) * (SCALE as i128);
        let quotient: i128 = if other.raw < 0 {
            (-wide) / (-(other.raw as i128))
        } else {
            wide / (other.raw as i128)
        };
        Fixed { raw: saturate(quotient) }
    }

    /// The smaller of the two.
    #[verifier::when_used_as_spec(spec_min)]
    pub fn min(self, other: Fixed) -> (r: Fixed)
        ensures
            r == self.spec_min(other),
    {
        if other.raw < self.raw {
            other
        } else {
            self
        }
    }

    /// The larger of the two.
    #[verifier::when_used_as_spec(spec_max)]
    pub fn max(self, other: Fixed) -> (r: Fixed)
        ensures
            r == self.spec_max(other),
    {
        if other.raw > self.raw {
            other
        } else {
            self
        }
    }

    /// Limits `self` to `[-bound, bound]`.
    #[verifier::when_used_as_spec(spec_clamp_abs)]
    pub fn clamp_abs(self, bound: Fixed) -> (r: Fixed)
        ensures
            r == self.spec_clamp_abs(bound),
    {
        self.max(bound.neg()).min(bound)
    }

    /// Square root, rounded down; zero for a negative number.
    #[verifier::when_used_as_spec(spec_sqrt)]
    pub fn sqrt(self) -> (r: Fixed)
        ensures
            r == self.spec_sqrt(),
    {
        if self.raw <= 0 {
            Fixed { raw: 0 }
        } else {
            proof {
                lemma_product_fits(self.raw as int, SCALE as int);
            }
            let wide: u128 = (self.raw as u128) * (SCALE as u128);
            let root: u64 = isqrt(wide);
            proof {
                lemma_floor_sqrt(wide as int);
                let r = root as int;
                assert(r <= 0x7fff_ffff_ffff_ffff) by (nonlinear_arith)
                    requires
                        r >= 0,
                        r * r <= wide,
                        wide <= 0x7fff_ffff_ffff_ffff * 1_000_000,
                ;
            }
            Fixed { raw: root as i64 }
        }
    }

    /// Rounds down to a whole number.
    #[verifier::when_used_as_spec(spec_floor)]
    pub fn floor(self) -> (r: Fixed)
        ensures
            r == self.spec_floor(),
    {
        let whole: i64 = if self.raw >= 0 {
            self.raw / SCALE
        } else {
            let up: i64 = (-(self.raw + 1)) / SCALE;
            -up - 1
        };
        proof {
            let a = self.raw as int;
            let s = SCALE as int;
            if a < 0 {
                assert(a / s == -((-(a + 1)) / s) - 1) by (nonlinear_arith)
                    requires
                        a < 0,
                        s == 1_000_000,
                ;
            }
            assert(-9_223_372_036_855 <= a / s <= 9_223_372_036_854) by (nonlinear_arith)
                requires
                    -0x8000_0000_0000_0000 <= a <= 0x7fff_ffff_ffff_ffff,
                    s == 1_000_000,
            ;
            assert(whole as int == a / s);
        }
        let wide: i128 = (whole as i128) * (SCALE as i128);
        Fixed { raw: saturate(wide) }
    }
}

} // verus!
