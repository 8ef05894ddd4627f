//! Outlines: the corners of a hexagon, the curve of a heart, and the
//! triangle fans that fill them.
//!
//! Sines and cosines come from the caller, who asks [`hexagon_angle`] and
//! [`heart_parameter`] where to evaluate them.

use vstd::prelude::*;
use crate::units::{div_toward_zero, is_signed_fraction, lemma_div_toward_zero_bounds, ONE, PI, TWO_PI};

verus! {

/// The farthest from the origin that a centre may lie, on either axis. It
/// leaves room for every offset an outline adds to its centre.
pub const COORD_MAX: i64 = 0x4000_0000_0000_0000;

/// The number of steps the heart's curve is cut into.
pub const HEART_SEGMENTS: u32 = 100;

/// The number of corners of a hexagon.
pub const HEXAGON_CORNERS: usize = 6;

/// A position, in the caller's length unit.
#[derive(Clone, Copy, Debug, PartialEq, Eq, Structural)]
pub struct Point {
    pub x: i64,
    pub y: i64,
}

/// One filled triangle of a fan.
#[derive(Clone, Copy, Debug, PartialEq, Eq, Structural)]
pub struct Triangle {
    pub a: Point,
    pub b: Point,
    pub c: Point,
}

/// The cosine and sine of one angle, in millionths.
#[derive(Clone, Copy, Debug, PartialEq, Eq, Structural)]
pub struct Direction {
    pub cos: i32,
    pub sin: i32,
}

/// What the heart's curve needs at one parameter `t`: the sine of `t` and
/// the cosines of `t`, `2t`, `3t` and `4t`, in millionths.
#[derive(Clone, Copy, Debug, PartialEq, Eq, Structural)]
pub struct HeartSample {
    pub sin_t: i32,
    pub cos_t: i32,
    pub cos_2t: i32,
    pub cos_3t: i32,
    pub cos_4t: i32,
}

impl Point {
    /// The point may serve as a centre.
    pub open spec fn in_range(self) -> bool {
        &&& -COORD_MAX <= self.x <= COORD_MAX
        &&& -COORD_MAX <= self.y <= COORD_MAX
    }

    /// Tells whether the point may serve as a centre.
    pub fn is_in_range(&self) -> (ok: bool)
        ensures
            ok == self.in_range(),
    {
        -COORD_MAX <= self.x && self.x <= COORD_MAX && -COORD_MAX <= self.y && self.y
            <= COORD_MAX
    }
}

impl Direction {
    /// Both parts lie in `[-1, 1]`.
    pub open spec fn wf(self) -> bool {
        is_signed_fraction(self.cos as int) && is_signed_fraction(self.sin as int)
    }

    /// Tells whether both parts lie in `[-1, 1]`.
    pub fn is_valid(&self) -> (ok: bool)
        ensures
            ok == self.wf(),
    {
        -(ONE as i32) <= self.cos && self.cos <= ONE as i32 && -(ONE as i32) <= self.sin
            && self.sin <= ONE as i32
    }
}

impl HeartSample {
    /// All five values lie in `[-1, 1]`.
    pub open spec fn wf(self) -> bool {
        &&& is_signed_fraction(self.sin_t as int)
        &&& is_signed_fraction(self.cos_t as int)
        &&& is_signed_fraction(self.cos_2t as int)
        &&& is_signed_fraction(self.cos_3t as int)
        &&& is_signed_fraction(self.cos_4t as int)
    }

    /// Tells whether all five values lie in `[-1, 1]`.
    pub fn is_valid(&self) -> (ok: bool)
        ensures
            ok == self.wf(),
    {
        let one: i32 = ONE as i32;
        -one <= self.sin_t && self.sin_t <= one && -one <= self.cos_t && self.cos_t <= one
            && -one <= self.cos_2t && self.cos_2t <= one && -one <= self.cos_3t && self.cos_3t
            <= one && -one <= self.cos_4t && self.cos_4t <= one
    }
}

/// The sequence holds the directions of a hexagon's six corners, each well
/// formed.
pub open spec fn directions_wf(corners: Seq<Direction>) -> bool {
    &&& corners.len() == HEXAGON_CORNERS
    &&& forall|i: int| 0 <= i < corners.len() ==> (#[trigger] corners[i]).wf()
}

/// Every sample of the sequence is well formed.
pub open spec fn samples_wf(samples: Seq<HeartSample>) -> bool {
    forall|i: int| 0 <= i < samples.len() ==> (#[trigger] samples[i]).wf()
}

/// The angle of corner `i` of a hexagon turned by `rotation`: sixty degrees
/// further for each corner, in millionths of a radian.
pub open spec fn hexagon_angle_spec(rotation: int, i: int) -> int {
    rotation + i * 60 * PI / 180
}

/// The corner of a hexagon in direction `dir`:
/// `center + radius * (cos, sin)`, each offset rounded toward the centre.
pub open spec fn hexagon_corner_spec(center: Point, radius: int, dir: Direction) -> Point {
    Point {
        x: (center.x + div_toward_zero(radius * dir.cos, ONE as int)) as i64,
        y: (center.y + div_toward_zero(radius * dir.sin, ONE as int)) as i64,
    }
}

/// The six corners of a hexagon, in the order of their directions.
pub open spec fn hexagon_points_spec(center: Point, radius: int, corners: Seq<Direction>) -> Seq<
    Point,
> {
    Seq::new(corners.len(), |i: int| hexagon_corner_spec(center, radius, corners[i]))
}

/// An offset `radius * part` stays within `radius` of zero.
pub proof fn lemma_offset_within_radius(radius: int, part: int)
    requires
        0 <= radius,
        is_signed_fraction(part),
    ensures
        -radius <= div_toward_zero(radius * part, ONE as int) <= radius,
{
    let one = ONE as int;
    let q = div_toward_zero(radius * part, one);
    lemma_div_toward_zero_bounds(radius * part, one);
    assert(-(radius * one) <= radius * part <= radius * one) by (nonlinear_arith)
        requires
            0 <= radius,
            -one <= part <= one,
    ;
    assert(one * q <= radius * one ==> q <= radius) by (nonlinear_arith)
        requires
            one > 0,
    ;
    assert(-(radius * one) <= one * q ==> -radius <= q) by (nonlinear_arith)
        requires
            one > 0,
    ;
}

/// The angle at which to evaluate the direction of corner `i`.
pub fn hexagon_angle(rotation: i32, i: u32) -> (angle: i64)
    requires
        i < 6,
    ensures
        angle == hexagon_angle_spec(rotation as int, i as int),
{
    let degrees: i64 = (i as i64) * 60;
    let pi: i64 = PI as i64;
    assert(0 <= degrees * pi <= 300 * 3_141_593) by (nonlinear_arith)
        requires
            0 <= degrees <= 300,
            pi == 3_141_593,
    ;
    rotation as i64 + degrees * pi / 180
}

/// One corner of a hexagon.
pub fn hexagon_corner(center: Point, radius: u32, dir: Direction) -> (p: Point)
    requires
        center.in_range(),
        dir.wf(),
    ensures
        p == hexagon_corner_spec(center, radius as int, dir),
        center.x - radius <= p.x <= center.x + radius,
        center.y - radius <= p.y <= center.y + radius,
{
    proof {
        lemma_offset_within_radius(radius as int, dir.cos as int);
        lemma_offset_within_radius(radius as int, dir.sin as int);
        assert(-0x1_0000_0000 * 1_000_000 <= radius * dir.cos <= 0x1_0000_0000 * 1_000_000)
            by (nonlinear_arith)
            requires
                0 <= radius < 0x1_0000_0000,
                -1_000_000 <= dir.cos <= 1_000_000,
        ;
        assert(-0x1_0000_0000 * 1_000_000 <= radius * dir.sin <= 0x1_0000_0000 * 1_000_000)
            by (nonlinear_arith)
            requires
                0 <= radius < 0x1_0000_0000,
                -1_000_000 <= dir.sin <= 1_000_000,
        ;
    }
    let dx: i64 = (radius as i64) * (dir.cos as i64) / (ONE as i64);
    let dy: i64 = (radius as i64) * (dir.sin as i64) / (ONE as i64);
    Point { x: center.x + dx, y: center.y + dy }
}

/// The six corners of a hexagon around `center`, one for each direction
/// given, in the same order.
pub fn hexagon_points(center: Point, radius: u32, corners: &Vec<Direction>) -> (points: Vec<Point>)
    requires
        center.in_range(),
        directions_wf(corners@),
    ensures
        points@ == hexagon_points_spec(center, radius as int, corners@),
        points@.len() == HEXAGON_CORNERS,
{
    let mut points: Vec<Point> = Vec::new();
    let mut i: usize = 0;
    while i < corners.len()
        invariant
            i <= corners.len(),
            center.in_range(),
            directions_wf(corners@),
            points@.len() == i,
            forall|k: int|
                0 <= k < i ==> points@[k] == hexagon_corner_spec(
                    center,
                    radius as int,
                    #[trigger] corners@[k],
                ),
        decreases corners.len() - i,
    {
        points.push(hexagon_corner(center, radius, corners[i]));
        i += 1;
    }
    assert(points@ =~= hexagon_points_spec(center, radius as int, corners@));
    points
}

/// The parameter of the heart's curve at step `i` of `segments`: that
/// fraction of a full turn, in millionths of a radian, rounded down.
pub open spec fn heart_parameter_spec(i: int, segments: int) -> int {
    i * TWO_PI / segments
}

/// The heart's curve across, before scaling: `16 * sin(t)^3`, in units of
/// one million cubed.
pub open spec fn heart_curve_x(s: HeartSample) -> int {
    16 * (s.sin_t * s.sin_t * s.sin_t)
}

/// The heart's curve down the screen, before scaling:
/// `-(13 cos t - 5 cos 2t - 2 cos 3t - cos 4t)`, in millionths.
pub open spec fn heart_curve_y(s: HeartSample) -> int {
    -(13 * s.cos_t - 5 * s.cos_2t - 2 * s.cos_3t - s.cos_4t)
}

/// The point of a heart of `size` around `center` at one sample: the curve
/// scaled by `size / 20` and moved to the centre, each offset rounded toward
/// the centre.
pub open spec fn heart_point_spec(center: Point, size: int, s: HeartSample) -> Point {
    Point {
        x: (center.x + div_toward_zero(
            heart_curve_x(s) * size,
            20 * (ONE as int * ONE as int * ONE as int),
        )) as i64,
        y: (center.y + div_toward_zero(heart_curve_y(s) * size, 20 * ONE as int)) as i64,
    }
}

/// The heart's outline, one point for each sample, in the same order.
pub open spec fn heart_points_spec(center: Point, size: int, samples: Seq<HeartSample>) -> Seq<
    Point,
> {
    Seq::new(samples.len(), |i: int| heart_point_spec(center, size, samples[i]))
}

/// How many triangles fill an outline of `n` points: one for each point if
/// the outline is closed back onto its first point, one fewer if not.
pub open spec fn fan_len(n: int, closed: bool) -> int {
    if closed || n == 0 {
        n
    } else {
        n - 1
    }
}

/// The fan that fills an outline from its centre: triangle `i` joins the
/// centre, point `i` and the point after it, which for the last point of a
/// closed outline is the first.
pub open spec fn fan_spec(center: Point, points: Seq<Point>, closed: bool) -> Seq<Triangle> {
    Seq::new(
        fan_len(points.len() as int, closed) as nat,
        |i: int|
            Triangle { a: center, b: points[i], c: points[(i + 1) % (points.len() as int)] },
    )
}

/// What filling a hexagon draws: the closed fan over its corners, or
/// nothing when it is not to be filled.
pub open spec fn draw_hexagon_spec(
    center: Point,
    radius: int,
    corners: Seq<Direction>,
    filled: bool,
) -> Seq<Triangle> {
    if filled {
        fan_spec(center, hexagon_points_spec(center, radius, corners), true)
    } else {
        Seq::empty()
    }
}

/// What filling a heart draws: the open fan over its outline.
pub open spec fn draw_heart_spec(center: Point, size: int, samples: Seq<HeartSample>) -> Seq<
    Triangle,
> {
    fan_spec(center, heart_points_spec(center, size, samples), false)
}

/// The curve's offsets stay within `size` across and `21/20` of it down.
pub proof fn lemma_heart_offsets(size: int, s: HeartSample)
    requires
        0 <= size,
        s.wf(),
    ensures
        -size <= div_toward_zero(
            heart_curve_x(s) * size,
            20 * (ONE as int * ONE as int * ONE as int),
        ) <= size,
        -2 * size <= div_toward_zero(heart_curve_y(s) * size, 20 * ONE as int) <= 2 * size,
        -16_000_000_000_000_000_000 * size <= heart_curve_x(s) * size
            <= 16_000_000_000_000_000_000 * size,
        -21_000_000 * size <= heart_curve_y(s) * size <= 21_000_000 * size,
{
    let sn = s.sin_t as int;
    let cube = sn * sn * sn;
    assert(-1_000_000_000_000_000_000 <= cube <= 1_000_000_000_000_000_000) by (nonlinear_arith)
        requires
            cube == sn * sn * sn,
            -1_000_000 <= sn <= 1_000_000,
    ;
    let cx = heart_curve_x(s);
    let cy = heart_curve_y(s);
    assert(-16_000_000_000_000_000_000 * size <= cx * size <= 16_000_000_000_000_000_000 * size)
        by (nonlinear_arith)
        requires
            0 <= size,
            -16_000_000_000_000_000_000 <= cx <= 16_000_000_000_000_000_000,
    ;
    assert(-21_000_000 * size <= cy * size <= 21_000_000 * size) by (nonlinear_arith)
        requires
            0 <= size,
            -21_000_000 <= cy <= 21_000_000,
    ;
    let dx = 20 * (ONE as int * ONE as int * ONE as int);
    assert(dx == 20_000_000_000_000_000_000) by (nonlinear_arith)
        requires
            dx == 20 * (1_000_000 * 1_000_000 * 1_000_000int),
    ;
    lemma_div_toward_zero_bounds(cx * size, dx);
    lemma_div_toward_zero_bounds(cy * size, 20 * ONE as int);
}

/// Where to evaluate the heart's sample at step `i` of `segments`.
pub fn heart_parameter(i: u32, segments: u32) -> (t: u32)
    requires
        segments > 0,
        i <= segments,
    ensures
        t == heart_parameter_spec(i as int, segments as int),
        t <= TWO_PI,
{
    let turn: u64 = TWO_PI as u64;
    proof {
        assert(i as int * turn as int <= segments as int * turn as int) by (nonlinear_arith)
            requires
                0 <= i <= segments,
                turn >= 0,
        ;
        assert(segments as int * turn as int <= 0xffff_ffff * 6_283_185) by (nonlinear_arith)
            requires
                0 <= segments <= 0xffff_ffff,
                turn == 6_283_185,
        ;
        vstd::arithmetic::div_mod::lemma_div_is_ordered(
            i as int * turn as int,
            segments as int * turn as int,
            segments as int,
        );
        vstd::arithmetic::div_mod::lemma_div_multiples_vanish(turn as int, segments as int);
        assert(segments as int * turn as int == turn as int * segments as int)
            by (nonlinear_arith);
    }
    ((i as u64) * turn / (segments as u64)) as u32
}

/// One point of a heart's outline.
pub fn heart_point(center: Point, size: u32, s: HeartSample) -> (p: Point)
    requires
        center.in_range(),
        s.wf(),
    ensures
        p == heart_point_spec(center, size as int, s),
        center.x - size <= p.x <= center.x + size,
        center.y - 2 * size <= p.y <= center.y + 2 * size,
{
    proof {
        lemma_heart_offsets(size as int, s);
    }
    let sn: i128 = s.sin_t as i128;
    assert(0 <= sn * sn <= 1_000_000_000_000) by (nonlinear_arith)
        requires
            -1_000_000 <= sn <= 1_000_000,
    ;
    let square: i128 = sn * sn;
    assert(-1_000_000_000_000_000_000 <= square * sn <= 1_000_000_000_000_000_000)
        by (nonlinear_arith)
        requires
            0 <= square <= 1_000_000_000_000,
            -1_000_000 <= sn <= 1_000_000,
    ;
    let across: i128 = 16 * (square * sn);
    let down: i128 = -(13 * (s.cos_t as i128) - 5 * (s.cos_2t as i128) - 2 * (s.cos_3t as i128)
        - s.cos_4t as i128);
    let one: i128 = ONE as i128;
    assert(one * one * one == 1_000_000_000_000_000_000) by (nonlinear_arith)
        requires
            one == 1_000_000,
    ;
    assert(one * one == 1_000_000_000_000) by (nonlinear_arith)
        requires
            one == 1_000_000,
    ;
    let cubed_one: i128 = one * one * one;
    assert(across == heart_curve_x(s));
    assert(down == heart_curve_y(s));
    assert(20 * cubed_one == 20 * (ONE as int * ONE as int * ONE as int));
    let dx: i128 = across * (size as i128) / (20 * cubed_one);
    let dy: i128 = down * (size as i128) / (20 * one);
    Point { x: (center.x as i128 + dx) as i64, y: (center.y as i128 + dy) as i64 }
}

/// The outline of a heart of `size` around `center`, one point for each
/// sample, in the same order.
pub fn heart_points(center: Point, size: u32, samples: &Vec<HeartSample>) -> (points: Vec<Point>)
    requires
        center.in_range(),
        samples_wf(samples@),
    ensures
        points@ == heart_points_spec(center, size as int, samples@),
{
    let mut points: Vec<Point> = Vec::new();
    let mut i: usize = 0;
    while i < samples.len()
        invariant
            i <= samples.len(),
            center.in_range(),
            samples_wf(samples@),
            points@.len() == i,
            forall|k: int|
                0 <= k < i ==> points@[k] == heart_point_spec(
                    center,
                    size as int,
                    #[trigger] samples@[k],
                ),
        decreases samples.len() - i,
    {
        points.push(heart_point(center, size, samples[i]));
        i += 1;
    }
    assert(points@ =~= heart_points_spec(center, size as int, samples@));
    points
}

/// The fan of triangles that fills an outline from `center`.
pub fn triangle_fan(center: Point, points: &Vec<Point>, closed: bool) -> (fan: Vec<Triangle>)
    ensures
        fan@ == fan_spec(center, points@, closed),
{
    let n: usize = points.len();
    let count: usize = if closed || n == 0 {
        n
    } else {
        n - 1
    };
    let mut fan: Vec<Triangle> = Vec::new();
    let mut i: usize = 0;
    while i < count
        invariant
            i <= count,
            n == points.len(),
            count == fan_len(n as int, closed),
            fan@.len() == i,
            forall|k: int|
                0 <= k < i ==> #[trigger] fan@[k] == (Triangle {
                    a: center,
                    b: points@[k],
                    c: points@[(k + 1) % (n as int)],
                }),
        decreases count - i,
    {
        let next: usize = if i + 1 == n {
            0
        } else {
            i + 1
        };
        assert(next == (i + 1) % (n as int)) by {
            if i + 1 == n {
                vstd::arithmetic::div_mod::lemma_mod_self_0(n as int);
            } else {
                vstd::arithmetic::div_mod::lemma_small_mod((i + 1) as nat, n as nat);
            }
        }
        fan.push(Triangle { a: center, b: points[i], c: points[next] });
        i += 1;
    }
    assert(fan@ =~= fan_spec(center, points@, closed));
    fan
}

/// The triangles that fill a hexagon of `radius` around `center`, or none
/// when it is not to be filled.
pub fn draw_hexagon(center: Point, radius: u32, corners: &Vec<Direction>, filled: bool) -> (fan:
    Vec<Triangle>)
    requires
        center.in_range(),
        directions_wf(corners@),
    ensures
        fan@ == draw_hexagon_spec(center, radius as int, corners@, filled),
{
    let points = hexagon_points(center, radius, corners);
    if filled {
        triangle_fan(center, &points, true)
    } else {
        Vec::new()
    }
}

/// The triangles that fill a heart of `size` around `center`.
pub fn draw_heart(center: Point, size: u32, samples: &Vec<HeartSample>) -> (fan: Vec<Triangle>)
    requires
        center.in_range(),
        samples_wf(samples@),
    ensures
        fan@ == draw_heart_spec(center, size as int, samples@),
{
    let points = heart_points(center, size, samples);
    triangle_fan(center, &points, false)
}

/// A heart's outline closes on itself whenever its last sample repeats its
/// first, as the samples of a full turn do.
pub proof fn lemma_heart_outline_closes(center: Point, size: int, samples: Seq<HeartSample>)
    requires
        samples.len() > 0,
        samples.last() == samples.first(),
    ensures
        heart_points_spec(center, size, samples).len() == samples.len(),
        heart_points_spec(center, size, samples).last() == heart_points_spec(
            center,
            size,
            samples,
        ).first(),
{
}

/// The sines and cosines of both outlines, evaluated once by the caller.
#[derive(Debug)]
pub struct Outlines {
    /// The directions of the hexagon's corners, see [`hexagon_angle`].
    pub hexagon: Vec<Direction>,
    /// The samples along the heart's curve, see [`heart_parameter`].
    pub heart: Vec<HeartSample>,
}

impl Outlines {
    /// Six well-formed directions and well-formed samples.
    pub open spec fn wf(self) -> bool {
        directions_wf(self.hexagon@) && samples_wf(self.heart@)
    }

    /// Tells whether the outlines are well formed.
    pub fn is_valid(&self) -> (ok: bool)
        ensures
            ok == self.wf(),
    {
        if self.hexagon.len() != HEXAGON_CORNERS {
            return false;
        }
        let mut i: usize = 0;
        while i < self.hexagon.len()
            invariant
                i <= self.hexagon.len(),
                forall|k: int| 0 <= k < i ==> (#[trigger] self.hexagon@[k]).wf(),
            decreases self.hexagon.len() - i,
        {
            if !self.hexagon[i].is_valid() {
                return false;
            }
            i += 1;
        }
        let mut j: usize = 0;
        while j < self.heart.len()
            invariant
                j <= self.heart.len(),
                forall|k: int| 0 <= k < j ==> (#[trigger] self.heart@[k]).wf(),
            decreases self.heart.len() - j,
        {
            if !self.heart[j].is_valid() {
                return false;
            }
            j += 1;
        }
        true
    }
}

} // verus!
