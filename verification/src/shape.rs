//! One cell of the tiling: where it stands, the colour it fades from and
//! to, and the phase of its pulse.

use vstd::prelude::*;
use crate::color::{mix, mix_spec, random_color, Rgb, Rgba};
use crate::config::ShapeType;
use crate::geometry::{
    draw_heart,
    draw_heart_spec,
    draw_hexagon,
    draw_hexagon_spec,
    Direction,
    HeartSample,
    Outlines,
    Point,
    Triangle,
};
use crate::pulse::{is_visible, is_visible_spec, phase, phase_spec, visibility, visibility_spec};
use crate::random::random_below;
use crate::units::{is_fraction, is_signed_fraction, ONE, TWO_PI};

verus! {

/// How much of a colour fade passes per second: three tenths, so that a
/// full fade takes a little over three seconds.
pub const COLOR_TRANSITION_RATE: u32 = 300_000;

/// A cell of the tiling.
#[derive(Clone, Copy, Debug, PartialEq, Eq, Structural)]
pub struct Shape {
    pub x: i64,
    pub y: i64,
    pub radius: u32,
    /// The colour the cell is fading from.
    pub color: Rgb,
    /// The colour the cell is fading to.
    pub next_color: Rgb,
    /// How far the fade has come, a fraction in millionths below one.
    pub transition_progress: u32,
    /// The cell's own shift of the pulse, in millionths of a radian below
    /// a full turn.
    pub phase_offset: u32,
}

/// What to draw for one cell in one frame.
#[derive(Debug)]
pub struct Drawing {
    pub color: Rgba,
    pub triangles: Vec<Triangle>,
}

/// A [`Drawing`] as a mathematical value.
pub struct DrawingView {
    pub color: Rgba,
    pub triangles: Seq<Triangle>,
}

impl View for Drawing {
    type V = DrawingView;

    open spec fn view(&self) -> DrawingView {
        DrawingView { color: self.color, triangles: self.triangles@ }
    }
}

/// The view of a drawing that may be absent.
pub open spec fn drawing_view(drawing: Option<Drawing>) -> Option<DrawingView> {
    match drawing {
        Some(d) => Some(d@),
        None => None,
    }
}

/// How far a fade moves in `dt`: `dt * 0.3`, rounded down.
pub open spec fn transition_step_spec(dt: int) -> int {
    dt * COLOR_TRANSITION_RATE / (ONE as int)
}

impl Shape {
    /// The centre is in range, both colours are colours, the fade has not
    /// yet reached one and the phase offset is below a full turn.
    pub open spec fn wf(self) -> bool {
        &&& self.center().in_range()
        &&& self.color.wf()
        &&& self.next_color.wf()
        &&& self.transition_progress < ONE
        &&& self.phase_offset < TWO_PI
    }

    /// Where the cell stands.
    pub open spec fn center(self) -> Point {
        Point { x: self.x, y: self.y }
    }

    /// Whether a step of `dt` completes the fade.
    pub open spec fn completes_fade(self, dt: int) -> bool {
        self.transition_progress + transition_step_spec(dt) >= ONE
    }

    /// The cell after `dt`: the fade moves on; once it reaches one the cell
    /// settles on the colour it was fading to, takes `fresh` as its next
    /// colour and starts over. Place, size and phase never change.
    pub open spec fn advanced(self, dt: int, fresh: Rgb) -> Shape {
        if self.completes_fade(dt) {
            Shape { color: self.next_color, next_color: fresh, transition_progress: 0, ..self }
        } else {
            Shape {
                transition_progress: (self.transition_progress + transition_step_spec(dt)) as u32,
                ..self
            }
        }
    }

    /// The cell after `count` steps of `dt`, with `fresh` as the colour to
    /// take up whenever a fade completes.
    pub open spec fn advanced_times(self, dt: int, fresh: Rgb, count: nat) -> Shape
        decreases count,
    {
        if count == 0 {
            self
        } else {
            self.advanced_times(dt, fresh, (count - 1) as nat).advanced(dt, fresh)
        }
    }

    /// The colour the cell shows: its fade so far, at the given opacity.
    pub open spec fn tint(self, opacity: int) -> Rgba {
        let c = mix_spec(self.color, self.next_color, self.transition_progress as int);
        Rgba { r: c.r, g: c.g, b: c.b, a: opacity as u32 }
    }

    /// What the cell draws when the sine of its phase stands at `raw`:
    /// nothing unless its opacity exceeds the floor, else the fan of the
    /// chosen outline in its current tint.
    pub open spec fn draw_spec(
        self,
        raw: int,
        shape_type: ShapeType,
        threshold: int,
        corners: Seq<Direction>,
        samples: Seq<HeartSample>,
    ) -> Option<DrawingView> {
        let opacity = visibility_spec(raw, threshold);
        if !is_visible_spec(opacity) {
            None
        } else {
            Some(
                DrawingView {
                    color: self.tint(opacity),
                    triangles: match shape_type {
                        ShapeType::Hexagon => draw_hexagon_spec(
                            self.center(),
                            self.radius as int,
                            corners,
                            true,
                        ),
                        ShapeType::Heart => draw_heart_spec(
                            self.center(),
                            self.radius as int,
                            samples,
                        ),
                    },
                },
            )
        }
    }

    /// Tells whether the cell is well formed.
    pub fn is_valid(&self) -> (ok: bool)
        ensures
            ok == self.wf(),
    {
        let center = Point { x: self.x, y: self.y };
        center.is_in_range() && self.color.is_valid() && self.next_color.is_valid()
            && self.transition_progress < ONE && self.phase_offset < TWO_PI
    }

    /// A cell at the start of a fade between the two given colours.
    pub fn with_colors(
        x: i64,
        y: i64,
        radius: u32,
        color: Rgb,
        next_color: Rgb,
        phase_offset: u32,
    ) -> (shape: Shape)
        requires
            (Point { x, y }).in_range(),
            color.wf(),
            next_color.wf(),
            phase_offset < TWO_PI,
        ensures
            shape == (Shape {
                x,
                y,
                radius,
                color,
                next_color,
                transition_progress: 0,
                phase_offset,
            }),
            shape.wf(),
    {
        Shape { x, y, radius, color, next_color, transition_progress: 0, phase_offset }
    }

    /// A cell at the start of a fade, with both colours and the phase
    /// offset drawn at random.
    pub fn new(x: i64, y: i64, radius: u32) -> (shape: Shape)
        requires
            (Point { x, y }).in_range(),
        ensures
            shape.wf(),
            shape.x == x,
            shape.y == y,
            shape.radius == radius,
            shape.transition_progress == 0,
    {
        let color = random_color();
        let next_color = random_color();
        let phase_offset: u32 = random_below(TWO_PI);
        Shape::with_colors(x, y, radius, color, next_color, phase_offset)
    }

    /// How far a fade moves in `dt`.
    pub fn transition_step(dt: u32) -> (step: u64)
        ensures
            step == transition_step_spec(dt as int),
    {
        (dt as u64) * (COLOR_TRANSITION_RATE as u64) / (ONE as u64)
    }

    /// Moves the cell on by `dt`, with `fresh` as the colour to take up
    /// next if the fade completes.
    pub fn advance(&mut self, dt: u32, fresh: Rgb)
        requires
            old(self).wf(),
            fresh.wf(),
        ensures
            *final(self) == old(self).advanced(dt as int, fresh),
            final(self).wf(),
    {
        let progress: u64 = self.transition_progress as u64 + Shape::transition_step(dt);
        if progress >= ONE as u64 {
            self.color = self.next_color;
            self.next_color = fresh;
            self.transition_progress = 0;
        } else {
            self.transition_progress = progress as u32;
        }
    }

    /// Moves the cell on by `dt`, drawing the next colour at random if the
    /// fade completes.
    pub fn update(&mut self, dt: u32)
        requires
            old(self).wf(),
        ensures
            final(self).wf(),
            exists|fresh: Rgb| fresh.wf() && *final(self) == old(self).advanced(dt as int, fresh),
    {
        let ghost before = *self;
        let progress: u64 = self.transition_progress as u64 + Shape::transition_step(dt);
        if progress >= ONE as u64 {
            let fresh = random_color();
            self.advance(dt, fresh);
            assert(fresh.wf() && *self == before.advanced(dt as int, fresh));
        } else {
            let kept = self.next_color;
            self.advance(dt, kept);
            assert(kept.wf() && *self == before.advanced(dt as int, kept));
        }
    }

    /// The angle whose sine drives the cell at `time`.
    pub fn phase(&self, time: u64, threshold: u32) -> (angle: u128)
        requires
            is_fraction(threshold as int),
        ensures
            angle == phase_spec(time as int, self.phase_offset as int, threshold as int),
    {
        phase(time, self.phase_offset, threshold)
    }

    /// What to draw for the cell when the sine of its phase stands at
    /// `raw`, or `None` when the cell is too faint to show.
    pub fn draw(&self, raw: i32, shape_type: ShapeType, threshold: u32, outlines: &Outlines) -> (drawing:
        Option<Drawing>)
        requires
            self.wf(),
            is_signed_fraction(raw as int),
            is_fraction(threshold as int),
            outlines.wf(),
        ensures
            drawing_view(drawing) == self.draw_spec(
                raw as int,
                shape_type,
                threshold as int,
                outlines.hexagon@,
                outlines.heart@,
            ),
    {
        let opacity: u32 = visibility(raw, threshold);
        if !is_visible(opacity) {
            return None;
        }
        let c = mix(self.color, self.next_color, self.transition_progress);
        let color = Rgba { r: c.r, g: c.g, b: c.b, a: opacity };
        let center = Point { x: self.x, y: self.y };
        let triangles = match shape_type {
            ShapeType::Hexagon => draw_hexagon(center, self.radius, &outlines.hexagon, true),
            ShapeType::Heart => draw_heart(center, self.radius, &outlines.heart),
        };
        Some(Drawing { color, triangles })
    }
}

/// While the steps taken do not add up to a whole fade, the colours stay
/// and the progress is the sum of the steps.
pub proof fn lemma_fade_in_progress(shape: Shape, dt: int, fresh: Rgb, count: nat)
    requires
        shape.wf(),
        0 <= dt,
        shape.transition_progress + count * transition_step_spec(dt) < ONE,
    ensures
        shape.advanced_times(dt, fresh, count) == (Shape {
            transition_progress: (shape.transition_progress + count * transition_step_spec(
                dt,
            )) as u32,
            ..shape
        }),
    decreases count,
{
    let step = transition_step_spec(dt);
    assert(step >= 0) by {
        vstd::arithmetic::div_mod::lemma_div_pos_is_pos(
            dt * COLOR_TRANSITION_RATE,
            ONE as int,
        );
    }
    if count > 0 {
        assert((count - 1) * step + step == count * step) by (nonlinear_arith);
        assert((count - 1) * step >= 0) by (nonlinear_arith)
            requires
                count >= 1,
                step >= 0,
        ;
        lemma_fade_in_progress(shape, dt, fresh, (count - 1) as nat);
    } else {
        assert(0 * step == 0);
    }
}

/// The step on which the steps taken first add up to a whole fade completes
/// it: the cell then shows the colour it was fading to, takes up the fresh
/// one, and starts over at progress zero, where it stood before.
pub proof fn lemma_fade_completes(shape: Shape, dt: int, fresh: Rgb, count: nat)
    requires
        shape.wf(),
        0 <= dt,
        count >= 1,
        shape.transition_progress + (count - 1) * transition_step_spec(dt) < ONE,
        shape.transition_progress + count * transition_step_spec(dt) >= ONE,
    ensures
        shape.advanced_times(dt, fresh, count) == (Shape {
            color: shape.next_color,
            next_color: fresh,
            transition_progress: 0,
            ..shape
        }),
{
    let step = transition_step_spec(dt);
    lemma_fade_in_progress(shape, dt, fresh, (count - 1) as nat);
    assert((count - 1) * step + step == count * step) by (nonlinear_arith);
}

} // verus!
