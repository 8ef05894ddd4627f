//! Colours: three stored channels, and a fourth that is computed per frame.

use vstd::prelude::*;
use crate::random::random_below;
use crate::units::{abs, div_toward_zero, is_fraction, lemma_div_toward_zero_bounds, ONE};

verus! {

/// An opaque colour; each channel is a fraction in millionths.
#[derive(Clone, Copy, Debug, PartialEq, Eq, Structural)]
pub struct Rgb {
    pub r: u32,
    pub g: u32,
    pub b: u32,
}

/// A colour with the opacity it is drawn at.
#[derive(Clone, Copy, Debug, PartialEq, Eq, Structural)]
pub struct Rgba {
    pub r: u32,
    pub g: u32,
    pub b: u32,
    pub a: u32,
}

impl Rgb {
    /// Every channel lies in `[0, 1]`.
    pub open spec fn wf(self) -> bool {
        &&& is_fraction(self.r as int)
        &&& is_fraction(self.g as int)
        &&& is_fraction(self.b as int)
    }

    /// Tells whether every channel lies in `[0, 1]`.
    pub fn is_valid(&self) -> (ok: bool)
        ensures
            ok == self.wf(),
    {
        self.r <= ONE && self.g <= ONE && self.b <= ONE
    }

    /// The colour with the given channels.
    pub fn new(r: u32, g: u32, b: u32) -> (c: Rgb)
        ensures
            c == (Rgb { r, g, b }),
            c.wf() <==> r <= ONE && g <= ONE && b <= ONE,
    {
        Rgb { r, g, b }
    }
}

impl Rgba {
    /// Every channel, opacity included, lies in `[0, 1]`.
    pub open spec fn wf(self) -> bool {
        &&& is_fraction(self.r as int)
        &&& is_fraction(self.g as int)
        &&& is_fraction(self.b as int)
        &&& is_fraction(self.a as int)
    }
}

/// The channel a fraction `progress` of the way from `current` to `next`:
/// `current + (next - current) * progress`, rounded toward `current`.
pub open spec fn mix_channel_spec(current: int, next: int, progress: int) -> int {
    current + div_toward_zero((next - current) * progress, ONE as int)
}

/// The colour a fraction `progress` of the way from `current` to `next`.
pub open spec fn mix_spec(current: Rgb, next: Rgb, progress: int) -> Rgb {
    Rgb {
        r: mix_channel_spec(current.r as int, next.r as int, progress) as u32,
        g: mix_channel_spec(current.g as int, next.g as int, progress) as u32,
        b: mix_channel_spec(current.b as int, next.b as int, progress) as u32,
    }
}

/// A mixed channel lies between its two ends, and no further from `next`
/// than `progress` is from one.
pub proof fn lemma_mix_channel_bounds(current: int, next: int, progress: int)
    requires
        is_fraction(current),
        is_fraction(next),
        is_fraction(progress),
    ensures
        current <= next ==> current <= mix_channel_spec(current, next, progress) <= next,
        next <= current ==> next <= mix_channel_spec(current, next, progress) <= current,
        is_fraction(mix_channel_spec(current, next, progress)),
        abs(next - mix_channel_spec(current, next, progress)) <= ONE - progress,
{
    let d = next - current;
    let one = ONE as int;
    let q = div_toward_zero(d * progress, one);
    lemma_div_toward_zero_bounds(d * progress, one);
    if d >= 0 {
        assert(0 <= d * progress <= d * one) by (nonlinear_arith)
            requires
                0 <= d,
                0 <= progress <= one,
        ;
        assert(d * (one - progress) <= one * (one - progress)) by (nonlinear_arith)
            requires
                0 <= d <= one,
                0 <= progress <= one,
        ;
        assert(d * one - d * progress == d * (one - progress)) by (nonlinear_arith);
    } else {
        assert(d * one <= d * progress <= 0) by (nonlinear_arith)
            requires
                d <= 0,
                0 <= progress <= one,
        ;
        assert((-d) * (one - progress) <= one * (one - progress)) by (nonlinear_arith)
            requires
                0 <= -d <= one,
                0 <= progress <= one,
        ;
        assert(d * progress - d * one == (-d) * (one - progress)) by (nonlinear_arith);
    }
}

/// Mixes one channel.
pub fn mix_channel(current: u32, next: u32, progress: u32) -> (c: u32)
    requires
        is_fraction(current as int),
        is_fraction(next as int),
        is_fraction(progress as int),
    ensures
        c == mix_channel_spec(current as int, next as int, progress as int),
        is_fraction(c as int),
{
    proof {
        lemma_mix_channel_bounds(current as int, next as int, progress as int);
        let d = next as int - current as int;
        assert(-1_000_000_000_000 <= d * progress <= 1_000_000_000_000) by (nonlinear_arith)
            requires
                -1_000_000 <= d <= 1_000_000,
                0 <= progress <= 1_000_000,
        ;
    }
    let delta: i64 = next as i64 - current as i64;
    let moved: i64 = delta * (progress as i64) / (ONE as i64);
    (current as i64 + moved) as u32
}

/// The colour drawn while a cell fades from `current` to `next`: each
/// channel is `current + (next - current) * progress`.
pub fn mix(current: Rgb, next: Rgb, progress: u32) -> (c: Rgb)
    requires
        current.wf(),
        next.wf(),
        is_fraction(progress as int),
    ensures
        c == mix_spec(current, next, progress as int),
        c.wf(),
{
    Rgb {
        r: mix_channel(current.r, next.r, progress),
        g: mix_channel(current.g, next.g, progress),
        b: mix_channel(current.b, next.b, progress),
    }
}

/// At progress zero the mixed colour is exactly `current`; at progress one
/// it is exactly `next`.
pub proof fn lemma_mix_ends(current: Rgb, next: Rgb)
    requires
        current.wf(),
        next.wf(),
    ensures
        mix_spec(current, next, 0) == current,
        mix_spec(current, next, ONE as int) == next,
{
    lemma_mix_channel_ends(current.r as int, next.r as int);
    lemma_mix_channel_ends(current.g as int, next.g as int);
    lemma_mix_channel_ends(current.b as int, next.b as int);
}

/// The two ends of a channel's fade.
pub proof fn lemma_mix_channel_ends(current: int, next: int)
    ensures
        mix_channel_spec(current, next, 0) == current,
        mix_channel_spec(current, next, ONE as int) == next,
{
    let d = next - current;
    assert(d * 0 == 0);
    assert(d * 1_000_000 / 1_000_000 == d) by (nonlinear_arith);
    assert((-(d * 1_000_000)) / 1_000_000 == -d) by (nonlinear_arith);
}

/// As progress approaches one the mixed colour approaches `next`: every
/// channel is within `1 - progress` of it.
pub proof fn lemma_mix_approaches_next(current: Rgb, next: Rgb, progress: int)
    requires
        current.wf(),
        next.wf(),
        is_fraction(progress),
    ensures
        abs(next.r - mix_spec(current, next, progress).r) <= ONE - progress,
        abs(next.g - mix_spec(current, next, progress).g) <= ONE - progress,
        abs(next.b - mix_spec(current, next, progress).b) <= ONE - progress,
{
    lemma_mix_channel_bounds(current.r as int, next.r as int, progress);
    lemma_mix_channel_bounds(current.g as int, next.g as int, progress);
    lemma_mix_channel_bounds(current.b as int, next.b as int, progress);
}

/// A colour whose three channels are drawn one after another from
/// `[0, 1)`. Which colour comes back is the generator's choice; whatever it
/// is, every channel is below one.
pub fn random_color() -> (c: Rgb)
    ensures
        c.wf(),
        c.r < ONE,
        c.g < ONE,
        c.b < ONE,
{
    let r: u32 = random_below(ONE);
    let g: u32 = random_below(ONE);
    let b: u32 = random_below(ONE);
    Rgb::new(r, g, b)
}

} // verus!
