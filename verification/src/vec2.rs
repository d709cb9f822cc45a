//! Two-dimensional vectors of fixed-point numbers.

use vstd::prelude::*;
use crate::fixed::{
    ceil_sqrt, floor_sqrt, isqrt, lemma_ceil_sqrt, lemma_floor_sqrt, lemma_product_fits,
    lemma_tdiv_bounds, mag, sat, tdiv, Fixed, SCALE,
};

verus! {

/// A point or a displacement in the plane.
#[derive(Clone, Copy, Debug, PartialEq, Eq, Hash, Structural)]
pub struct Vec2 {
    pub x: Fixed,
    pub y: Fixed,
}

/// `x * l / c`, rounded toward zero: one component of a vector of length at
/// most `c` rescaled to length `l`.
pub open spec fn rescale(x: int, l: int, c: int) -> int
    recommends
        c > 0,
{
    tdiv(x * l, c)
}

/// A rescaled component keeps its sign and is bounded by the target length.
pub proof fn lemma_rescale(x: int, l: int, c: int)
    requires
        c > 0,
        l >= 0,
        mag(x) <= c,
    ensures
        mag(rescale(x, l, c)) <= l,
        mag(rescale(x, l, c)) * c <= mag(x) * l,
        x >= 0 ==> rescale(x, l, c) >= 0,
        x <= 0 ==> rescale(x, l, c) <= 0,
{
    let m = mag(x);
    let p = m * l;
    assert(p >= 0 && p <= c * l) by (nonlinear_arith)
        requires
            0 <= m <= c,
            l >= 0,
            p == m * l,
    ;
    assert(mag(x * l) == p) by (nonlinear_arith)
        requires
            p == m * l,
            m == mag(x),
            l >= 0,
    ;
    assert(x >= 0 ==> x * l >= 0) by (nonlinear_arith)
        requires
            l >= 0,
    ;
    assert(x <= 0 ==> x * l <= 0) by (nonlinear_arith)
        requires
            l >= 0,
    ;
    lemma_tdiv_bounds(x * l, c);
    let q = p / c;
    assert(q * c <= p && q <= l) by (nonlinear_arith)
        requires
            q == p / c,
            0 <= p <= c * l,
            c > 0,
    ;
}

/// The components of a vector are no longer than the vector.
pub proof fn lemma_component_bound(x: int, y: int, c: int)
    requires
        c >= 0,
        x * x + y * y <= c * c,
    ensures
        mag(x) <= c,
        mag(y) <= c,
{
    let mx = mag(x);
    let my = mag(y);
    assert(mx * mx == x * x) by (nonlinear_arith)
        requires
            mx == mag(x),
    ;
    assert(my * my == y * y) by (nonlinear_arith)
        requires
            my == mag(y),
    ;
    assert(mx <= c && my <= c) by (nonlinear_arith)
        requires
            mx >= 0,
            my >= 0,
            mx * mx == x * x,
            my * my == y * y,
            x * x + y * y <= c * c,
            c >= 0,
    ;
}

/// Two components rescaled by the rounded-up length stay within the target
/// length.
pub proof fn lemma_rescale_norm(x: int, y: int, l: int, c: int)
    requires
        c > 0,
        l >= 0,
        x * x + y * y <= c * c,
    ensures
        rescale(x, l, c) * rescale(x, l, c) + rescale(y, l, c) * rescale(y, l, c) <= l * l,
{
    let mx = mag(x);
    let my = mag(y);
    lemma_component_bound(x, y, c);
    lemma_rescale(x, l, c);
    lemma_rescale(y, l, c);
    let a = mag(rescale(x, l, c));
    let b = mag(rescale(y, l, c));
    let aa = a * a;
    let bb = b * b;
    let cc = c * c;
    let ll = l * l;
    let xx = mx * mx;
    let yy = my * my;
    assert(xx == x * x) by (nonlinear_arith)
        requires
            xx == mx * mx,
            mx == mag(x),
    ;
    assert(yy == y * y) by (nonlinear_arith)
        requires
            yy == my * my,
            my == mag(y),
    ;
    assert(aa * cc <= xx * ll) by (nonlinear_arith)
        requires
            0 <= a * c <= mx * l,
            aa == a * a,
            cc == c * c,
            xx == mx * mx,
            ll == l * l,
    ;
    assert(bb * cc <= yy * ll) by (nonlinear_arith)
        requires
            0 <= b * c <= my * l,
            bb == b * b,
            cc == c * c,
            yy == my * my,
            ll == l * l,
    ;
    assert(ll >= 0) by (nonlinear_arith)
        requires
            ll == l * l,
    ;
    assert((xx + yy) * ll <= cc * ll) by (nonlinear_arith)
        requires
            xx + yy <= cc,
            ll >= 0,
    ;
    assert((aa + bb) * cc <= ll * cc) by (nonlinear_arith)
        requires
            aa * cc <= xx * ll,
            bb * cc <= yy * ll,
            (xx + yy) * ll <= cc * ll,
    ;
    assert(cc > 0) by (nonlinear_arith)
        requires
            cc == c * c,
            c > 0,
    ;
    assert(aa + bb <= ll) by (nonlinear_arith)
        requires
            (aa + bb) * cc <= ll * cc,
            cc > 0,
    ;
    assert(aa == rescale(x, l, c) * rescale(x, l, c)) by (nonlinear_arith)
        requires
            aa == a * a,
            a == mag(rescale(x, l, c)),
    ;
    assert(bb == rescale(y, l, c) * rescale(y, l, c)) by (nonlinear_arith)
        requires
            bb == b * b,
            b == mag(rescale(y, l, c)),
    ;
}

/// Squares of `i64` values and their sum fit in a `u128`.
pub proof fn lemma_norm_fits(x: int, y: int)
    requires
        i64::MIN <= x <= i64::MAX,
        i64::MIN <= y <= i64::MAX,
    ensures
        0 <= x * x <= 0x4000_0000_0000_0000_0000_0000_0000_0000,
        0 <= y * y <= 0x4000_0000_0000_0000_0000_0000_0000_0000,
        mag(x) * mag(x) == x * x,
        mag(y) * mag(y) == y * y,
{
    lemma_product_fits(x, x);
    lemma_product_fits(y, y);
    assert(x * x >= 0 && mag(x) * mag(x) == x * x) by (nonlinear_arith);
    assert(y * y >= 0 && mag(y) * mag(y) == y * y) by (nonlinear_arith);
}

impl Vec2 {
    /// The zero vector.
    pub open spec fn spec_zero() -> Vec2 {
        Vec2 { x: Fixed { raw: 0 }, y: Fixed { raw: 0 } }
    }

    /// Componentwise sum, clamped.
    pub open spec fn spec_add(self, other: Vec2) -> Vec2 {
        Vec2 { x: self.x.spec_add(other.x), y: self.y.spec_add(other.y) }
    }

    /// Componentwise difference, clamped.
    pub open spec fn spec_sub(self, other: Vec2) -> Vec2 {
        Vec2 { x: self.x.spec_sub(other.x), y: self.y.spec_sub(other.y) }
    }

    /// The opposite vector.
    pub open spec fn spec_neg(self) -> Vec2 {
        Vec2 { x: self.x.spec_neg(), y: self.y.spec_neg() }
    }

    /// Both components multiplied by `k`.
    pub open spec fn spec_scale(self, k: Fixed) -> Vec2 {
        Vec2 { x: self.x.spec_mul(k), y: self.y.spec_mul(k) }
    }

    /// Both components divided by `k`.
    pub open spec fn spec_div(self, k: Fixed) -> Vec2
        recommends
            k.raw != 0,
    {
        Vec2 { x: self.x.spec_div(k), y: self.y.spec_div(k) }
    }

    /// Dot product, in fixed-point arithmetic.
    pub open spec fn spec_dot(self, other: Vec2) -> Fixed {
        self.x.spec_mul(other.x).spec_add(self.y.spec_mul(other.y))
    }

    /// Squared length, in fixed-point arithmetic.
    pub open spec fn spec_len_sqr(self) -> Fixed {
        self.spec_dot(self)
    }

    /// Exact squared length, in squared raw units.
    pub open spec fn norm_sq(self) -> int {
        self.x.raw * self.x.raw + self.y.raw * self.y.raw
    }

    /// Length, rounded down to a millionth and clamped.
    pub open spec fn spec_len(self) -> Fixed {
        Fixed { raw: sat(floor_sqrt(self.norm_sq())) as i64 }
    }

    /// The vector divided by its length rounded up, or zero for the zero
    /// vector.
    pub open spec fn spec_normalize_or_zero(self) -> Vec2 {
        if self.norm_sq() == 0 {
            Vec2::spec_zero()
        } else {
            let c = ceil_sqrt(self.norm_sq());
            Vec2 {
                x: Fixed { raw: rescale(self.x.raw as int, SCALE as int, c) as i64 },
                y: Fixed { raw: rescale(self.y.raw as int, SCALE as int, c) as i64 },
            }
        }
    }

    /// Whether the vector is no longer than `max`.
    pub open spec fn fits(self, max: Fixed) -> bool {
        max.raw >= 0 && self.norm_sq() <= max.raw * max.raw
    }

    /// The vector shortened to length `max` where it is longer; a `max`
    /// that is not positive gives the zero vector.
    pub open spec fn spec_clamp_len(self, max: Fixed) -> Vec2 {
        if max.raw <= 0 {
            Vec2::spec_zero()
        } else if self.fits(max) {
            self
        } else {
            let c = ceil_sqrt(self.norm_sq());
            Vec2 {
                x: Fixed { raw: rescale(self.x.raw as int, max.raw as int, c) as i64 },
                y: Fixed { raw: rescale(self.y.raw as int, max.raw as int, c) as i64 },
            }
        }
    }

    /// Exact squared distance between two points, in squared raw units.
    pub open spec fn dist_sq(self, other: Vec2) -> int {
        (self.x.raw - other.x.raw) * (self.x.raw - other.x.raw) + (self.y.raw - other.y.raw) * (
        self.y.raw - other.y.raw)
    }

    /// Whether `other` lies within distance `reach` of `self`.
    pub open spec fn reaches(self, other: Vec2, reach: Fixed) -> bool {
        reach.raw >= 0 && self.dist_sq(other) <= reach.raw * reach.raw
    }

    /// Whether neither component was produced by clamping.
    pub open spec fn interior(self) -> bool {
        self.x.interior() && self.y.interior()
    }

    /// The zero vector.
    #[verifier::when_used_as_spec(spec_zero)]
    pub fn zero() -> (r: Vec2)
        ensures
            r == Vec2::spec_zero(),
    {
        Vec2 { x: Fixed { raw: 0 }, y: Fixed { raw: 0 } }
    }

    /// The vector with the given components.
    pub fn new(x: Fixed, y: Fixed) -> (r: Vec2)
        ensures
            r == (Vec2 { x, y }),
    {
        Vec2 { x, y }
    }

    /// Componentwise saturating sum.
    #[verifier::when_used_as_spec(spec_add)]
    pub fn add(self, other: Vec2) -> (r: Vec2)
        ensures
            r == self.spec_add(other),
    {
        Vec2 { x: self.x.add(other.x), y: self.y.add(other.y) }
    }

    /// Componentwise saturating difference.
    #[verifier::when_used_as_spec(spec_sub)]
    pub fn sub(self, other: Vec2) -> (r: Vec2)
        ensures
            r == self.spec_sub(other),
    {
        Vec2 { x: self.x.sub(other.x), y: self.y.sub(other.y) }
    }

    /// The opposite vector.
    #[verifier::when_used_as_spec(spec_neg)]
    pub fn neg(self) -> (r: Vec2)
        ensures
            r == self.spec_neg(),
    {
        Vec2 { x: self.x.neg(), y: self.y.neg() }
    }

    /// Both components multiplied by `k`.
    #[verifier::when_used_as_spec(spec_scale)]
    pub fn scale(self, k: Fixed) -> (r: Vec2)
        ensures
            r == self.spec_scale(k),
    {
        Vec2 { x: self.x.mul(k), y: self.y.mul(k) }
    }

    /// Both components divided by `k`.
    #[verifier::when_used_as_spec(spec_div)]
    pub fn div(self, k: Fixed) -> (r: Vec2)
        requires
            k.raw != 0,
        ensures
            r == self.spec_div(k),
    {
        Vec2 { x: self.x.div(k), y: self.y.div(k) }
    }

    /// Dot product.
    #[verifier::when_used_as_spec(spec_dot)]
    pub fn dot(self, other: Vec2) -> (r: Fixed)
        ensures
            r == self.spec_dot(other),
    {
        self.x.mul(other.x).add(self.y.mul(other.y))
    }

    /// Squared length as a fixed-point number.
    #[verifier::when_used_as_spec(spec_len_sqr)]
    pub fn len_sqr(self) -> (r: Fixed)
        ensures
            r == self.spec_len_sqr(),
    {
        self.dot(self)
    }

    /// Exact squared length in squared raw units.
    pub fn norm_sq_raw(self) -> (n: u128)
        ensures
            n as int == self.norm_sq(),
    {
        proof {
            lemma_norm_fits(self.x.raw as int, self.y.raw as int);
        }
        let ax: u128 = if self.x.raw < 0 {
            (-(self.x.raw as i128)) as u128
        } else {
            self.x.raw as u128
        };
        let ay: u128 = if self.y.raw < 0 {
            (-(self.y.raw as i128)) as u128
        } else {
            self.y.raw as u128
        };
        ax * ax + ay * ay
    }

    /// Length, rounded down.
    #[verifier::when_used_as_spec(spec_len)]
    pub fn len(self) -> (r: Fixed)
        ensures
            r == self.spec_len(),
    {
        let root: u64 = isqrt(self.norm_sq_raw());
        if root > i64::MAX as u64 {
            Fixed { raw: i64::MAX }
        } else {
            Fixed { raw: root as i64 }
        }
    }

    /// Unit vector in the direction of `self`, or zero for the zero vector.
    #[verifier::when_used_as_spec(spec_normalize_or_zero)]
    pub fn normalize_or_zero(self) -> (r: Vec2)
        ensures
            r == self.spec_normalize_or_zero(),
    {
        let n: u128 = self.norm_sq_raw();
        if n == 0 {
            Vec2::zero()
        } else {
            let c: u128 = ceil_root(n);
            proof {
                lemma_component_bound(self.x.raw as int, self.y.raw as int, c as int);
            }
            Vec2 {
                x: Fixed { raw: rescale_raw(self.x.raw, SCALE, c) },
                y: Fixed { raw: rescale_raw(self.y.raw, SCALE, c) },
            }
        }
    }

    /// Shortens the vector to length `max` where it is longer.
    #[verifier::when_used_as_spec(spec_clamp_len)]
    pub fn clamp_len(self, max: Fixed) -> (r: Vec2)
        ensures
            r == self.spec_clamp_len(max),
    {
        if max.raw <= 0 {
            return Vec2::zero();
        }
        let n: u128 = self.norm_sq_raw();
        let m: u128 = max.raw as u128;
        proof {
            lemma_product_fits(max.raw as int, max.raw as int);
        }
        if n <= m * m {
            self
        } else {
            let c: u128 = ceil_root(n);
            proof {
                lemma_component_bound(self.x.raw as int, self.y.raw as int, c as int);
            }
            Vec2 {
                x: Fixed { raw: rescale_raw(self.x.raw, max.raw, c) },
                y: Fixed { raw: rescale_raw(self.y.raw, max.raw, c) },
            }
        }
    }
}

/// Normalizing keeps the sign of each component and gives a vector no
/// longer than one.
pub proof fn lemma_normalize(v: Vec2)
    ensures
        v.x.raw >= 0 ==> v.spec_normalize_or_zero().x.raw >= 0,
        v.x.raw <= 0 ==> v.spec_normalize_or_zero().x.raw <= 0,
        v.y.raw >= 0 ==> v.spec_normalize_or_zero().y.raw >= 0,
        v.y.raw <= 0 ==> v.spec_normalize_or_zero().y.raw <= 0,
        v.spec_normalize_or_zero().fits(Fixed { raw: SCALE }),
{
    let n = v.norm_sq();
    lemma_norm_fits(v.x.raw as int, v.y.raw as int);
    if n != 0 {
        let c = ceil_sqrt(n);
        lemma_ceil_sqrt(n);
        lemma_component_bound(v.x.raw as int, v.y.raw as int, c);
        lemma_rescale(v.x.raw as int, SCALE as int, c);
        lemma_rescale(v.y.raw as int, SCALE as int, c);
        lemma_rescale_norm(v.x.raw as int, v.y.raw as int, SCALE as int, c);
    }
}

/// A clamped vector is no longer than the bound, keeps the sign of each
/// component, and is unchanged where it already fits.
pub proof fn lemma_clamp_len(v: Vec2, max: Fixed)
    ensures
        v.spec_clamp_len(max).fits(max.spec_max(Fixed { raw: 0 })),
        v.fits(max) ==> v.spec_clamp_len(max) == v,
        mag(v.spec_clamp_len(max).x.raw as int) <= mag(v.x.raw as int),
        mag(v.spec_clamp_len(max).y.raw as int) <= mag(v.y.raw as int),
        v.x.raw >= 0 ==> v.spec_clamp_len(max).x.raw >= 0,
        v.x.raw <= 0 ==> v.spec_clamp_len(max).x.raw <= 0,
        v.y.raw >= 0 ==> v.spec_clamp_len(max).y.raw >= 0,
        v.y.raw <= 0 ==> v.spec_clamp_len(max).y.raw <= 0,
{
    let n = v.norm_sq();
    lemma_norm_fits(v.x.raw as int, v.y.raw as int);
    if max.raw <= 0 {
        if v.fits(max) {
            assert(max.raw * max.raw == 0) by (nonlinear_arith)
                requires
                    max.raw == 0,
            ;
            assert(v.x.raw == 0) by (nonlinear_arith)
                requires
                    v.x.raw * v.x.raw + v.y.raw * v.y.raw <= 0,
            ;
            assert(v.y.raw == 0) by (nonlinear_arith)
                requires
                    v.x.raw * v.x.raw + v.y.raw * v.y.raw <= 0,
            ;
        }
    } else if !v.fits(max) {
        let c = ceil_sqrt(n);
        let l = max.raw as int;
        lemma_ceil_sqrt(n);
        lemma_component_bound(v.x.raw as int, v.y.raw as int, c);
        lemma_rescale(v.x.raw as int, l, c);
        lemma_rescale(v.y.raw as int, l, c);
        lemma_rescale_norm(v.x.raw as int, v.y.raw as int, l, c);
        assert(l <= c) by (nonlinear_arith)
            requires
                l * l < n,
                n <= c * c,
                l >= 0,
                c >= 0,
        ;
        let mx = mag(v.x.raw as int);
        let my = mag(v.y.raw as int);
        let rx = mag(rescale(v.x.raw as int, l, c));
        let ry = mag(rescale(v.y.raw as int, l, c));
        assert(rx <= mx) by (nonlinear_arith)
            requires
                rx * c <= mx * l,
                0 <= l <= c,
                c > 0,
                mx >= 0,
                rx >= 0,
        ;
        assert(ry <= my) by (nonlinear_arith)
            requires
                ry * c <= my * l,
                0 <= l <= c,
                c > 0,
                my >= 0,
                ry >= 0,
        ;
    }
}

/// Square root of `n`, rounded up.
pub fn ceil_root(n: u128) -> (c: u128)
    ensures
        c as int == ceil_sqrt(n as int),
        c <= 0x1_0000_0000_0000_0000,
        n <= c * c,
        n > 0 ==> c > 0,
{
    let root: u64 = isqrt(n);
    proof {
        lemma_floor_sqrt(n as int);
        lemma_ceil_sqrt(n as int);
        let r = root as int;
        assert(r * r <= 0xffff_ffff_ffff_ffff * 0xffff_ffff_ffff_ffff) by (nonlinear_arith)
            requires
                0 <= r <= 0xffff_ffff_ffff_ffff,
        ;
    }
    let wide: u128 = root as u128;
    if wide * wide == n {
        wide
    } else {
        wide + 1
    }
}

/// `x * l / c`, rounded toward zero, for a component `x` of a vector whose
/// length is at most `c`.
pub fn rescale_raw(x: i64, l: i64, c: u128) -> (r: i64)
    requires
        l >= 0,
        0 < c <= 0x1_0000_0000_0000_0000,
        mag(x as int) <= c,
    ensures
        r as int == rescale(x as int, l as int, c as int),
{
    proof {
        lemma_product_fits(x as int, l as int);
        lemma_rescale(x as int, l as int, c as int);
    }
    let wide: i128 = (x as i128) * (l as i128);
    let q: i128 = wide / (c as i128);
    q as i64
}

} // verus!
