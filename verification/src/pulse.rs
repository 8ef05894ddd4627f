//! The pulse that fades each cell in and out: a sine wave cut off at a
//! threshold and squared.

use vstd::prelude::*;
use crate::units::{is_fraction, is_signed_fraction, ONE};

verus! {

/// Opacities at or below this floor, one hundredth, are not worth drawing.
pub const VISIBILITY_FLOOR: u32 = 10_000;

/// The angular speed of the pulse in radians per second:
/// `(1 - threshold) * 10`.
pub open spec fn phase_speed_spec(threshold: int) -> int {
    (ONE - threshold) * 10
}

/// The angle whose sine drives a cell at `time`:
/// `time * phase_speed + phase_offset`, the product rounded down.
pub open spec fn phase_spec(time: int, phase_offset: int, threshold: int) -> int {
    time * phase_speed_spec(threshold) / (ONE as int) + phase_offset
}

/// The square of how far `raw` has risen above the threshold.
pub open spec fn rise_squared(raw: int, threshold: int) -> int {
    (raw - threshold) * (raw - threshold)
}

/// The square of the room between the threshold and the sine's peak.
pub open spec fn span_squared(threshold: int) -> int {
    (ONE - threshold) * (ONE - threshold)
}

/// The opacity of a cell whose sine stands at `raw`: nothing up to the
/// threshold, and above it `((raw - threshold) / (1 - threshold))^2`, that is
/// `rise_squared / span_squared`, rounded down to a millionth.
pub open spec fn visibility_spec(raw: int, threshold: int) -> int {
    if raw <= threshold {
        0
    } else {
        ONE * rise_squared(raw, threshold) / span_squared(threshold)
    }
}

/// Whether a cell of this opacity is drawn at all.
pub open spec fn is_visible_spec(opacity: int) -> bool {
    opacity > VISIBILITY_FLOOR
}

/// The angular speed of the pulse for a threshold.
pub fn phase_speed(threshold: u32) -> (speed: u32)
    requires
        is_fraction(threshold as int),
    ensures
        speed == phase_speed_spec(threshold as int),
{
    (ONE - threshold) * 10
}

/// The angle to take the sine of for a cell with `phase_offset`, `time`
/// after the start.
pub fn phase(time: u64, phase_offset: u32, threshold: u32) -> (angle: u128)
    requires
        is_fraction(threshold as int),
    ensures
        angle == phase_spec(time as int, phase_offset as int, threshold as int),
{
    let speed: u128 = phase_speed(threshold) as u128;
    assert(time as int * speed as int <= 0xffff_ffff_ffff_ffff * 10_000_000) by (nonlinear_arith)
        requires
            0 <= time as int <= 0xffff_ffff_ffff_ffff,
            0 <= speed as int <= 10_000_000,
    ;
    (time as u128) * speed / (ONE as u128) + phase_offset as u128
}

/// The opacity of a cell whose sine stands at `raw`.
pub fn visibility(raw: i32, threshold: u32) -> (opacity: u32)
    requires
        is_signed_fraction(raw as int),
        is_fraction(threshold as int),
    ensures
        opacity == visibility_spec(raw as int, threshold as int),
        is_fraction(opacity as int),
        raw <= threshold ==> opacity == 0,
{
    if raw <= 0 || raw as u32 <= threshold {
        return 0;
    }
    let rise: u64 = (raw as u32 - threshold) as u64;
    let span: u64 = (ONE - threshold) as u64;
    proof {
        lemma_visibility_range(raw as int, threshold as int);
        assert(rise * rise <= 1_000_000 * 1_000_000) by (nonlinear_arith)
            requires
                0 <= rise <= 1_000_000,
        ;
        assert(0 < span * span <= 1_000_000 * 1_000_000) by (nonlinear_arith)
            requires
                0 < span <= 1_000_000,
        ;
    }
    let opacity: u64 = (ONE as u64) * (rise * rise) / (span * span);
    opacity as u32
}

/// Tells whether a cell of this opacity is drawn at all.
pub fn is_visible(opacity: u32) -> (shown: bool)
    ensures
        shown == is_visible_spec(opacity as int),
{
    opacity > VISIBILITY_FLOOR
}

/// While the sine is at or below the threshold the cell is invisible.
pub proof fn lemma_visibility_zero_up_to_threshold(raw: int, threshold: int)
    requires
        is_fraction(threshold),
        raw <= threshold,
    ensures
        visibility_spec(raw, threshold) == 0,
{
}

/// Above the threshold the exact opacity `rise_squared / span_squared` lies
/// in `(0, 1]`, and `visibility_spec` is that ratio rounded down to a
/// millionth: it lies in `[0, 1]` and is positive as soon as the ratio
/// reaches one millionth.
pub proof fn lemma_visibility_range(raw: int, threshold: int)
    requires
        is_fraction(threshold),
        threshold < raw <= ONE,
    ensures
        0 < rise_squared(raw, threshold) <= span_squared(threshold),
        visibility_spec(raw, threshold) * span_squared(threshold) <= ONE * rise_squared(
            raw,
            threshold,
        ) < (visibility_spec(raw, threshold) + 1) * span_squared(threshold),
        is_fraction(visibility_spec(raw, threshold)),
        visibility_spec(raw, threshold) > 0 <==> ONE * rise_squared(raw, threshold)
            >= span_squared(threshold),
{
    let rise = raw - threshold;
    let span = ONE - threshold;
    let n = ONE * rise_squared(raw, threshold);
    let d = span_squared(threshold);
    let v = visibility_spec(raw, threshold);
    assert(0 < rise * rise <= span * span) by (nonlinear_arith)
        requires
            0 < rise <= span,
    ;
    assert(n <= ONE * d) by (nonlinear_arith)
        requires
            n == ONE * (rise * rise),
            d == span * span,
            rise * rise <= span * span,
    ;
    vstd::arithmetic::div_mod::lemma_fundamental_div_mod(n, d);
    vstd::arithmetic::div_mod::lemma_mod_bound(n, d);
    assert(v == n / d);
    assert(d * v <= n < d * v + d);
    assert(v * d == d * v) by (nonlinear_arith);
    assert((v + 1) * d == d * v + d) by (nonlinear_arith);
    assert(0 <= v <= ONE) by (nonlinear_arith)
        requires
            d > 0,
            0 <= n <= ONE * d,
            d * v <= n < d * v + d,
    ;
    assert(v > 0 <==> n >= d) by (nonlinear_arith)
        requires
            d > 0,
            d * v <= n < d * v + d,
            v >= 0,
    ;
}

/// The opacity never falls as the sine rises, and above the threshold the
/// exact opacity rises strictly with it.
pub proof fn lemma_visibility_monotone(lower: int, higher: int, threshold: int)
    requires
        is_fraction(threshold),
        lower <= higher <= ONE,
    ensures
        visibility_spec(lower, threshold) <= visibility_spec(higher, threshold),
        threshold < lower < higher ==> rise_squared(lower, threshold) < rise_squared(
            higher,
            threshold,
        ),
{
    if higher <= threshold {
    } else if lower <= threshold {
        lemma_visibility_range(higher, threshold);
    } else {
        lemma_visibility_range(lower, threshold);
        lemma_visibility_range(higher, threshold);
        let a = lower - threshold;
        let b = higher - threshold;
        let d = span_squared(threshold);
        assert(a * a <= b * b) by (nonlinear_arith)
            requires
                0 < a <= b,
        ;
        assert(a < b ==> a * a < b * b) by (nonlinear_arith)
            requires
                0 < a <= b,
        ;
        assert(ONE * (a * a) <= ONE * (b * b)) by (nonlinear_arith)
            requires
                a * a <= b * b,
        ;
        vstd::arithmetic::div_mod::lemma_div_is_ordered(ONE * (a * a), ONE * (b * b), d);
    }
}

/// At the sine's peak a cell is fully opaque exactly when the threshold is
/// below one.
pub proof fn lemma_visibility_at_peak(threshold: int)
    requires
        is_fraction(threshold),
    ensures
        visibility_spec(ONE as int, threshold) == ONE <==> threshold < ONE,
{
    if threshold < ONE {
        let d = span_squared(threshold);
        assert(d > 0) by (nonlinear_arith)
            requires
                d == (ONE - threshold) * (ONE - threshold),
                ONE - threshold > 0,
        ;
        vstd::arithmetic::div_mod::lemma_div_multiples_vanish(ONE as int, d);
        assert(ONE * d == d * ONE) by (nonlinear_arith);
    }
}

} // verus!
