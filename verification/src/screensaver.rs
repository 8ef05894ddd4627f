//! A running session: the cells, the clock, and the watch for the user's
//! return.

use vstd::prelude::*;
use crate::color::Rgb;
use crate::config::Config;
use crate::geometry::{Outlines, Point};
use crate::pulse::phase_spec;
use crate::grid::{create_hexgrid, create_hexgrid_spec, grid_len_spec};
use crate::shape::{drawing_view, Drawing, DrawingView, Shape};
use crate::units::is_signed_fraction;

verus! {

/// The radius of a cell, in pixels.
pub const SHAPE_RADIUS: u32 = 40;

/// What the user did since the last frame.
#[derive(Clone, Copy, Debug, PartialEq, Eq, Structural)]
pub struct Input {
    /// Where the pointer is.
    pub mouse: Point,
    /// Whether the escape key was pressed.
    pub escape: bool,
    /// Whether the mouse button was pressed.
    pub mouse_button: bool,
}

/// A session of the screen saver.
#[derive(Debug)]
pub struct Screensaver {
    pub config: Config,
    pub shapes: Vec<Shape>,
    /// The time since the start, in millionths of a second.
    pub time: u64,
    /// Whether the pointer has moved once already.
    pub mouse_moved: bool,
    /// Where the pointer was when last it counted as moved, or at the start.
    pub last_mouse_pos: Point,
}

/// The clock after `dt`; it stops at the largest time it can hold.
pub open spec fn clock_after(time: int, dt: int) -> int {
    if time + dt > u64::MAX {
        u64::MAX as int
    } else {
        time + dt
    }
}

/// Every cell is well formed.
pub open spec fn shapes_wf(shapes: Seq<Shape>) -> bool {
    forall|i: int| 0 <= i < shapes.len() ==> (#[trigger] shapes[i]).wf()
}

/// `after` is the cell `before` moved on by `dt`, with some colour to take
/// up next.
pub open spec fn shape_advanced(before: Shape, after: Shape, dt: int) -> bool {
    exists|fresh: Rgb| fresh.wf() && after == before.advanced(dt, fresh)
}

/// Each cell of `after` is the cell of `before` at the same place, moved on
/// by `dt`.
pub open spec fn shapes_advanced(before: Seq<Shape>, after: Seq<Shape>, dt: int) -> bool {
    &&& after.len() == before.len()
    &&& forall|i: int|
        0 <= i < before.len() ==> #[trigger] shape_advanced(before[i], after[i], dt)
}

/// Every sine lies in `[-1, 1]`.
pub open spec fn sines_wf(sines: Seq<i32>) -> bool {
    forall|i: int| 0 <= i < sines.len() ==> is_signed_fraction(#[trigger] sines[i] as int)
}

/// The views of a list of drawings.
pub open spec fn drawings_view(drawings: Seq<Drawing>) -> Seq<DrawingView> {
    drawings.map_values(|d: Drawing| d@)
}

/// What the first `count` cells draw, in order, each with the sine at its
/// place; cells too faint to show draw nothing.
pub open spec fn drawings_spec(
    shapes: Seq<Shape>,
    sines: Seq<i32>,
    config: Config,
    outlines: Outlines,
    count: nat,
) -> Seq<DrawingView>
    decreases count,
{
    if count == 0 {
        Seq::empty()
    } else {
        let before = drawings_spec(shapes, sines, config, outlines, (count - 1) as nat);
        match shapes[count - 1].draw_spec(
            sines[count - 1] as int,
            config.shape,
            config.threshold as int,
            outlines.hexagon@,
            outlines.heart@,
        ) {
            Some(drawing) => before.push(drawing),
            None => before,
        }
    }
}

impl Screensaver {
    /// The settings and all cells are well formed.
    pub open spec fn wf(self) -> bool {
        self.config.wf() && shapes_wf(self.shapes@)
    }

    /// Whether the pointer is somewhere else than where it last counted.
    pub open spec fn pointer_moved(self, input: Input) -> bool {
        input.mouse != self.last_mouse_pos
    }

    /// Whether the session ends on this input: on the escape key, on a
    /// mouse button, or when the pointer moves for the second time.
    pub open spec fn ends_on(self, input: Input) -> bool {
        ||| self.pointer_moved(input) && self.mouse_moved
        ||| input.escape
        ||| input.mouse_button
    }

    /// A session over a viewport: one cell of `radius` at each centre of
    /// the grid, each at the start of a fade between random colours, with
    /// the clock at zero and the pointer where it is now.
    pub fn new(config: Config, radius: u32, width: u32, height: u32, mouse: Point) -> (session:
        Screensaver)
        requires
            config.wf(),
            radius > 0,
            grid_len_spec(radius as int, width as int, height as int) <= usize::MAX,
        ensures
            session.wf(),
            session.config == config,
            session.time == 0,
            !session.mouse_moved,
            session.last_mouse_pos == mouse,
            session.shapes@.len() == grid_len_spec(radius as int, width as int, height as int),
            forall|i: int|
                0 <= i < session.shapes@.len() ==> {
                    &&& (#[trigger] session.shapes@[i]).center() == create_hexgrid_spec(
                        radius as int,
                        width as int,
                        height as int,
                    )[i]
                    &&& session.shapes@[i].radius == radius
                    &&& session.shapes@[i].transition_progress == 0
                },
    {
        let cells = create_hexgrid(radius, width, height);
        let mut shapes: Vec<Shape> = Vec::new();
        let mut i: usize = 0;
        while i < cells.len()
            invariant
                i <= cells.len(),
                shapes@.len() == i,
                shapes_wf(shapes@),
                forall|k: int| 0 <= k < cells@.len() ==> (#[trigger] cells@[k]).in_range(),
                forall|k: int|
                    0 <= k < i ==> {
                        &&& (#[trigger] shapes@[k]).center() == cells@[k]
                        &&& shapes@[k].radius == radius
                        &&& shapes@[k].transition_progress == 0
                    },
            decreases cells.len() - i,
        {
            let cell = cells[i];
            shapes.push(Shape::new(cell.x, cell.y, radius));
            i += 1;
        }
        Screensaver { config, shapes, time: 0, mouse_moved: false, last_mouse_pos: mouse }
    }

    /// Takes the session through one frame of `dt`, and tells whether it
    /// goes on.
    ///
    /// The clock moves on. The first time the pointer is found moved, that
    /// is noted and forgiven. If the session ends, the cells stay as they
    /// are; if it goes on, every cell moves on by `dt`.
    pub fn frame(&mut self, dt: u32, input: Input) -> (running: bool)
        requires
            old(self).wf(),
        ensures
            final(self).wf(),
            running == !old(self).ends_on(input),
            final(self).config == old(self).config,
            final(self).time == clock_after(old(self).time as int, dt as int),
            final(self).mouse_moved == (old(self).mouse_moved || old(self).pointer_moved(input)),
            final(self).last_mouse_pos == if old(self).pointer_moved(input) && !old(
                self,
            ).mouse_moved {
                input.mouse
            } else {
                old(self).last_mouse_pos
            },
            !running ==> final(self).shapes@ == old(self).shapes@,
            running ==> shapes_advanced(old(self).shapes@, final(self).shapes@, dt as int),
    {
        self.time = if self.time > u64::MAX - dt as u64 {
            u64::MAX
        } else {
            self.time + dt as u64
        };
        if input.mouse != self.last_mouse_pos {
            if self.mouse_moved {
                return false;
            }
            self.mouse_moved = true;
            self.last_mouse_pos = input.mouse;
        }
        if input.escape || input.mouse_button {
            return false;
        }
        let ghost noted = *self;
        let mut i: usize = 0;
        while i < self.shapes.len()
            invariant
                i <= self.shapes.len(),
                self.shapes@.len() == old(self).shapes@.len(),
                self.config == noted.config,
                self.time == noted.time,
                self.mouse_moved == noted.mouse_moved,
                self.last_mouse_pos == noted.last_mouse_pos,
                old(self).wf(),
                shapes_wf(self.shapes@),
                forall|k: int|
                    0 <= k < i ==> #[trigger] shape_advanced(
                        old(self).shapes@[k],
                        self.shapes@[k],
                        dt as int,
                    ),
                forall|k: int| i <= k < self.shapes@.len() ==> self.shapes@[k] == old(self).shapes@[k],
            decreases self.shapes.len() - i,
        {
            let mut shape = self.shapes[i];
            shape.update(dt);
            self.shapes.set(i, shape);
            i += 1;
        }
        true
    }

    /// The angle of each cell's pulse at the session's time, in the order
    /// of the cells; the caller takes their sines.
    pub fn phases(&self) -> (angles: Vec<u128>)
        requires
            self.wf(),
        ensures
            angles@.len() == self.shapes@.len(),
            forall|i: int|
                0 <= i < angles@.len() ==> #[trigger] angles@[i] == phase_spec(
                    self.time as int,
                    self.shapes@[i].phase_offset as int,
                    self.config.threshold as int,
                ),
    {
        let mut angles: Vec<u128> = Vec::new();
        let mut i: usize = 0;
        while i < self.shapes.len()
            invariant
                i <= self.shapes.len(),
                self.wf(),
                angles@.len() == i,
                forall|k: int|
                    0 <= k < i ==> #[trigger] angles@[k] == phase_spec(
                        self.time as int,
                        self.shapes@[k].phase_offset as int,
                        self.config.threshold as int,
                    ),
            decreases self.shapes.len() - i,
        {
            angles.push(self.shapes[i].phase(self.time, self.config.threshold));
            i += 1;
        }
        angles
    }

    /// What to draw this frame, given the sine of each cell's phase: the
    /// drawings of the cells that show, in the order of the cells.
    pub fn draw(&self, sines: &Vec<i32>, outlines: &Outlines) -> (drawings: Vec<Drawing>)
        requires
            self.wf(),
            outlines.wf(),
            sines@.len() == self.shapes@.len(),
            sines_wf(sines@),
        ensures
            drawings_view(drawings@) == drawings_spec(
                self.shapes@,
                sines@,
                self.config,
                *outlines,
                self.shapes@.len(),
            ),
    {
        let mut drawings: Vec<Drawing> = Vec::new();
        let mut i: usize = 0;
        assert(drawings_view(drawings@) =~= Seq::<DrawingView>::empty());
        while i < self.shapes.len()
            invariant
                i <= self.shapes.len(),
                self.wf(),
                outlines.wf(),
                sines@.len() == self.shapes@.len(),
                sines_wf(sines@),
                drawings_view(drawings@) == drawings_spec(
                    self.shapes@,
                    sines@,
                    self.config,
                    *outlines,
                    i as nat,
                ),
            decreases self.shapes.len() - i,
        {
            let drawing = self.shapes[i].draw(
                sines[i],
                self.config.shape,
                self.config.threshold,
                outlines,
            );
            match drawing {
                Some(d) => {
                    proof {
                        assert(drawings_view(drawings@.push(d)) =~= drawings_view(drawings@).push(
                            d@,
                        ));
                    }
                    drawings.push(d);
                },
                None => {},
            }
            i += 1;
        }
        drawings
    }
}

} // verus!
