//! Rounding of integers to multiples of a step.

use vstd::prelude::*;

verus! {

/// `a / d` rounded down, for `d > 0` (the quotient of Euclidean division).
pub open spec fn floor_div(a: int, d: int) -> int {
    a / d
}

/// `a / d` rounded up, for `d > 0`.
pub open spec fn ceil_div(a: int, d: int) -> int {
    -((-a) / d)
}

/// `s * ceil(x / s)` over the rationals, for `s != 0`: the multiple of `s`
/// reached from `x` by rounding the quotient up.
pub open spec fn ceil_mul_spec(x: int, s: int) -> int {
    if s > 0 {
        s * ceil_div(x, s)
    } else {
        s * ceil_div(-x, -s)
    }
}

/// `s * floor(x / s)` over the rationals, for `s != 0`.
pub open spec fn floor_mul_spec(x: int, s: int) -> int {
    if s > 0 {
        s * floor_div(x, s)
    } else {
        s * floor_div(-x, -s)
    }
}

/// Whether `v` fits in an `i64`.
pub open spec fn fits_i64(v: int) -> bool {
    i64::MIN <= v <= i64::MAX
}

/// Floor division on `i128`, for a positive divisor.
pub fn div_floor(a: i128, d: i128) -> (q: i128)
    requires
        d > 0,
    ensures
        q == floor_div(a as int, d as int),
{
    proof {
        let ai = a as int;
        let di = d as int;
        if ai < 0 {
            assert(ai <= ai / di < 0) by (nonlinear_arith)
                requires di > 0, ai < 0;
        } else {
            assert(0 <= ai / di <= ai) by (nonlinear_arith)
                requires di > 0, ai >= 0;
        }
    }
    match a.checked_div_euclid(d) {
        Some(q) => q,
        None => 0,
    }
}

/// Ceiling division on `i128`, for a positive divisor.
pub fn div_ceil(a: i128, d: i128) -> (q: i128)
    requires
        d > 0,
        a > i128::MIN,
    ensures
        q == ceil_div(a as int, d as int),
{
    let f = div_floor(-a, d);
    proof {
        if -a < 0 {
            assert((-a) as int / d as int >= (-a) as int) by (nonlinear_arith)
                requires d > 0, -a < 0;
        } else {
            assert((-a) as int / d as int >= 0) by (nonlinear_arith)
                requires d > 0, -a >= 0;
        }
    }
    -f
}

/// Rounding of a value to a multiple of a step.
pub trait RoundMul: Sized {
    /// Whether `self` is the value `v`, for the contracts below.
    spec fn as_int(&self) -> int;

    /// `s * ceil(self / s)`: for a positive `s`, the least multiple of `s`
    /// that is not below `self`.
    fn ceil_mul(self, s: Self) -> (r: Self)
        requires
            s.as_int() != 0,
            fits_i64(ceil_mul_spec(self.as_int(), s.as_int())),
        ensures
            r.as_int() == ceil_mul_spec(self.as_int(), s.as_int()),
    ;

    /// `s * floor(self / s)`: for a positive `s`, the greatest multiple of
    /// `s` that is not above `self`.
    fn floor_mul(self, s: Self) -> (r: Self)
        requires
            s.as_int() != 0,
            fits_i64(floor_mul_spec(self.as_int(), s.as_int())),
        ensures
            r.as_int() == floor_mul_spec(self.as_int(), s.as_int()),
    ;
}

impl RoundMul for i64 {
    open spec fn as_int(&self) -> int {
        *self as int
    }

    fn ceil_mul(self, s: i64) -> (r: i64) {
        proof {
            assert(s.as_int() == s as int && self.as_int() == self as int);
            assert(s != 0);
            assert(fits_i64(ceil_mul_spec(self as int, s as int)));
        }
        let x = self as i128;
        let s = s as i128;
        let c = if s > 0 {
            let q = div_ceil(x, s);
            proof { lemma_mul_bound(q as int, s as int, ceil_mul_spec(x as int, s as int)); }
            q * s
        } else {
            let q = div_ceil(-x, -s);
            proof { lemma_mul_bound(q as int, s as int, ceil_mul_spec(x as int, s as int)); }
            q * s
        };
        c as i64
    }

    fn floor_mul(self, s: i64) -> (r: i64) {
        proof {
            assert(s.as_int() == s as int && self.as_int() == self as int);
            assert(s != 0);
            assert(fits_i64(floor_mul_spec(self as int, s as int)));
        }
        let x = self as i128;
        let s = s as i128;
        let c = if s > 0 {
            let q = div_floor(x, s);
            proof { lemma_mul_bound(q as int, s as int, floor_mul_spec(x as int, s as int)); }
            q * s
        } else {
            let q = div_floor(-x, -s);
            proof { lemma_mul_bound(q as int, s as int, floor_mul_spec(x as int, s as int)); }
            q * s
        };
        c as i64
    }
}

/// For a positive step `s`: `floor_mul(x, s) <= x <= ceil_mul(x, s)`, both
/// are multiples of `s`, and each is less than one step away from `x`,
/// whatever the sign of `x`.
pub proof fn lemma_round_bounds(x: int, s: int)
    requires
        s > 0,
    ensures
        floor_mul_spec(x, s) <= x < floor_mul_spec(x, s) + s,
        ceil_mul_spec(x, s) - s < x <= ceil_mul_spec(x, s),
        floor_mul_spec(x, s) % s == 0,
        ceil_mul_spec(x, s) % s == 0,
        floor_mul_spec(x, s) == s * floor_div(x, s),
        ceil_mul_spec(x, s) == s * ceil_div(x, s),
{
    let f = x / s;
    let g = (-x) / s;
    assert(s * f <= x < s * f + s) by (nonlinear_arith)
        requires s > 0, f == x / s;
    assert(s * g <= -x < s * g + s) by (nonlinear_arith)
        requires s > 0, g == (-x) / s;
    assert(s * (-g) == -(s * g)) by (nonlinear_arith);
    assert((s * f) % s == 0) by (nonlinear_arith) requires s > 0;
    assert((s * (-g)) % s == 0) by (nonlinear_arith) requires s > 0;
}

proof fn lemma_mul_bound(q: int, s: int, v: int)
    requires
        v == s * q,
        fits_i64(v),
    ensures
        q * s == v,
{
    assert(q * s == s * q) by (nonlinear_arith);
}

} // verus!
