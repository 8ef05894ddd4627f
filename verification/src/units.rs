//! The fixed-point scale shared by every dimensionless quantity.

use vstd::prelude::*;

verus! {

/// The integer that stands for `1.0`: fractions, seconds and radians are
/// counted in millionths.
pub const ONE: u32 = 1_000_000;

/// Pi in millionths of a radian, rounded to the nearest.
pub const PI: u32 = 3_141_593;

/// A full turn in millionths of a radian, rounded to the nearest.
pub const TWO_PI: u32 = 6_283_185;

/// The sine of sixty degrees in millionths, rounded to the nearest.
pub const SIN_60: u32 = 866_025;

/// Whether `v` stands for a number in `[0, 1]`.
pub open spec fn is_fraction(v: int) -> bool {
    0 <= v <= ONE
}

/// Whether `v` stands for a number in `[-1, 1]`, as a sine or cosine does.
pub open spec fn is_signed_fraction(v: int) -> bool {
    -ONE <= v <= ONE
}

/// The quotient `n / d` rounded toward zero, for a positive divisor.
pub open spec fn div_toward_zero(n: int, d: int) -> int {
    if n >= 0 {
        n / d
    } else {
        -((-n) / d)
    }
}

/// The absolute value of `v`.
pub open spec fn abs(v: int) -> int {
    if v >= 0 {
        v
    } else {
        -v
    }
}

/// Rounding toward zero never moves a quotient past its exact value, nor by
/// a whole unit: `d * q` lies between `n - d` and `n + d`, on the side of
/// zero.
pub proof fn lemma_div_toward_zero_bounds(n: int, d: int)
    requires
        d > 0,
    ensures
        n >= 0 ==> 0 <= d * div_toward_zero(n, d) <= n < d * div_toward_zero(n, d) + d,
        n <= 0 ==> d * div_toward_zero(n, d) - d < n <= d * div_toward_zero(n, d) <= 0,
        abs(div_toward_zero(n, d)) * d <= abs(n),
{
    if n >= 0 {
        vstd::arithmetic::div_mod::lemma_fundamental_div_mod(n, d);
        vstd::arithmetic::div_mod::lemma_mod_bound(n, d);
        vstd::arithmetic::div_mod::lemma_div_pos_is_pos(n, d);
        assert(d * (n / d) >= 0) by (nonlinear_arith)
            requires
                d > 0,
                n / d >= 0,
        ;
        assert(abs(n / d) * d == d * (n / d)) by (nonlinear_arith)
            requires
                n / d >= 0,
        ;
    } else {
        let m = -n;
        vstd::arithmetic::div_mod::lemma_fundamental_div_mod(m, d);
        vstd::arithmetic::div_mod::lemma_mod_bound(m, d);
        vstd::arithmetic::div_mod::lemma_div_pos_is_pos(m, d);
        assert(d * (-(m / d)) == -(d * (m / d))) by (nonlinear_arith);
        assert(d * (m / d) >= 0) by (nonlinear_arith)
            requires
                d > 0,
                m / d >= 0,
        ;
        assert(abs(-(m / d)) * d == d * (m / d)) by (nonlinear_arith)
            requires
                m / d >= 0,
        ;
    }
}

} // verus!
