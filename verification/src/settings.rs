//! The settings window: two radio buttons for the shape, a slider for the
//! density of the pulse, and a button to save.
//!
//! The caller draws the widgets and samples the pointer; what a sample
//! does to the settings is decided here. Positions are integers, `unit` of
//! them to a pixel.

use vstd::prelude::*;
use crate::config::{Config, ShapeType};
use crate::geometry::Point;
use crate::units::{div_toward_zero, lemma_div_toward_zero_bounds, ONE};

verus! {

/// A rectangle: its top left corner, its width and its height.
#[derive(Clone, Copy, Debug, PartialEq, Eq, Structural)]
pub struct Rect {
    pub x: i64,
    pub y: i64,
    pub w: i64,
    pub h: i64,
}

/// One sample of the pointer and the keyboard.
#[derive(Clone, Copy, Debug, PartialEq, Eq, Structural)]
pub struct Sample {
    /// Where the pointer is.
    pub mouse: Point,
    /// Whether the left button is held down.
    pub down: bool,
    /// Whether the left button went down since the last sample.
    pub pressed: bool,
    /// Whether the escape key was pressed.
    pub escape: bool,
}

/// What the window does after a sample.
#[derive(Clone, Copy, Debug, PartialEq, Eq, Structural)]
pub enum Outcome {
    /// Stay open.
    Continue,
    /// Save the settings and close.
    Save,
    /// Close without saving.
    Cancel,
}

/// The state of the settings window.
#[derive(Clone, Copy, Debug, PartialEq, Eq, Structural)]
pub struct SettingsUi {
    pub config: Config,
    pub selected_hexagon: bool,
    pub selected_heart: bool,
    /// Whether the slider's handle is being dragged.
    pub dragging: bool,
}

/// A rectangle given in pixels, in units.
pub open spec fn pixels(x: int, y: int, w: int, h: int, unit: int) -> Rect {
    Rect { x: (x * unit) as i64, y: (y * unit) as i64, w: (w * unit) as i64, h: (h * unit) as i64 }
}

/// The radio button for hexagons.
pub open spec fn hexagon_box_spec(unit: int) -> Rect {
    pixels(40, 110, 20, 20, unit)
}

/// The radio button for hearts.
pub open spec fn heart_box_spec(unit: int) -> Rect {
    pixels(40, 150, 20, 20, unit)
}

/// The track of the density slider.
pub open spec fn slider_spec(unit: int) -> Rect {
    pixels(40, 240, 420, 10, unit)
}

/// The button that saves and closes.
pub open spec fn ok_button_spec(unit: int) -> Rect {
    pixels(200, 390, 100, 40, unit)
}

/// The density shown for a threshold: one at a threshold of nine tenths,
/// falling to zero as the threshold rises to one:
/// `1 - (threshold - 0.9) * 10`.
pub open spec fn density_spec(threshold: int) -> int {
    ONE - (threshold - 900_000) * 10
}

/// The slider's handle for a threshold: sixteen pixels wide and twenty
/// high, centred on the track at the density's share of its width.
pub open spec fn handle_spec(threshold: int, unit: int) -> Rect {
    Rect {
        x: (40 * unit + div_toward_zero(density_spec(threshold) * (420 * unit), ONE as int) - 8
            * unit) as i64,
        y: (235 * unit) as i64,
        w: (16 * unit) as i64,
        h: (20 * unit) as i64,
    }
}

/// How far along the slider's track `x` lies, from zero at its left end to
/// one at its right end and no further.
pub open spec fn slider_share_spec(x: int, unit: int) -> int {
    let share = div_toward_zero((x - 40 * unit) * ONE, 420 * unit);
    if share < 0 {
        0
    } else if share > ONE {
        ONE as int
    } else {
        share
    }
}

/// The threshold that the slider gives with the pointer at `x`: one at the
/// left end of the track, nine tenths at the right end.
pub open spec fn threshold_at_spec(x: int, unit: int) -> int {
    ONE - slider_share_spec(x, unit) / 10
}

impl Rect {
    /// Whether the point lies in the rectangle, edges included.
    pub open spec fn contains_spec(self, p: Point) -> bool {
        &&& self.x <= p.x <= self.x + self.w
        &&& self.y <= p.y <= self.y + self.h
    }

    /// Tells whether the point lies in the rectangle, edges included.
    pub fn contains(&self, p: Point) -> (inside: bool)
        ensures
            inside == self.contains_spec(p),
    {
        let right: i128 = self.x as i128 + self.w as i128;
        let bottom: i128 = self.y as i128 + self.h as i128;
        p.x >= self.x && p.x as i128 <= right && p.y as i128 <= bottom && p.y >= self.y
    }
}

/// A rectangle given in pixels.
fn rect_of_pixels(x: u16, y: u16, w: u16, h: u16, unit: u32) -> (rect: Rect)
    ensures
        rect == pixels(x as int, y as int, w as int, h as int, unit as int),
{
    proof {
        assert(0 <= x * unit <= 0xffff * 0xffff_ffff) by (nonlinear_arith)
            requires
                0 <= x <= 0xffff,
                0 <= unit <= 0xffff_ffff,
        ;
        assert(0 <= y * unit <= 0xffff * 0xffff_ffff) by (nonlinear_arith)
            requires
                0 <= y <= 0xffff,
                0 <= unit <= 0xffff_ffff,
        ;
        assert(0 <= w * unit <= 0xffff * 0xffff_ffff) by (nonlinear_arith)
            requires
                0 <= w <= 0xffff,
                0 <= unit <= 0xffff_ffff,
        ;
        assert(0 <= h * unit <= 0xffff * 0xffff_ffff) by (nonlinear_arith)
            requires
                0 <= h <= 0xffff,
                0 <= unit <= 0xffff_ffff,
        ;
    }
    let u: i64 = unit as i64;
    Rect { x: x as i64 * u, y: y as i64 * u, w: w as i64 * u, h: h as i64 * u }
}

/// The radio button for hexagons.
pub fn hexagon_box(unit: u32) -> (rect: Rect)
    ensures
        rect == hexagon_box_spec(unit as int),
{
    rect_of_pixels(40, 110, 20, 20, unit)
}

/// The radio button for hearts.
pub fn heart_box(unit: u32) -> (rect: Rect)
    ensures
        rect == heart_box_spec(unit as int),
{
    rect_of_pixels(40, 150, 20, 20, unit)
}

/// The track of the density slider.
pub fn slider(unit: u32) -> (rect: Rect)
    ensures
        rect == slider_spec(unit as int),
{
    rect_of_pixels(40, 240, 420, 10, unit)
}

/// The button that saves and closes.
pub fn ok_button(unit: u32) -> (rect: Rect)
    ensures
        rect == ok_button_spec(unit as int),
{
    rect_of_pixels(200, 390, 100, 40, unit)
}

/// The density shown for a threshold.
pub fn density(threshold: u32) -> (d: i64)
    ensures
        d == density_spec(threshold as int),
{
    ONE as i64 - (threshold as i64 - 900_000) * 10
}

/// The slider's handle for a threshold.
pub fn handle(threshold: u32, unit: u32) -> (rect: Rect)
    ensures
        rect == handle_spec(threshold as int, unit as int),
{
    let d: i128 = density(threshold) as i128;
    let u: i128 = unit as i128;
    let one: i128 = ONE as i128;
    proof {
        assert(-0x1_0000_0000_0000 * (420 * 0xffff_ffff) <= d * (420 * u) <= 0x1_0000_0000_0000
            * (420 * 0xffff_ffff)) by (nonlinear_arith)
            requires
                -0x1_0000_0000_0000 <= d <= 0x1_0000_0000_0000,
                0 <= u <= 0xffff_ffff,
        ;
        lemma_div_toward_zero_bounds(d * (420 * u), one as int);
    }
    let along: i128 = d * (420 * u) / one;
    Rect {
        x: (40 * u + along - 8 * u) as i64,
        y: (235 * u) as i64,
        w: (16 * u) as i64,
        h: (20 * u) as i64,
    }
}

/// The threshold that the slider gives with the pointer at `x`.
pub fn threshold_at(x: i64, unit: u32) -> (threshold: u32)
    requires
        unit > 0,
    ensures
        threshold == threshold_at_spec(x as int, unit as int),
        900_000 <= threshold <= ONE,
{
    let u: i128 = unit as i128;
    let one: i128 = ONE as i128;
    let offset: i128 = x as i128 - 40 * u;
    proof {
        assert(-0x1_0000_0000_0000_0000 * 1_000_000 <= offset * one <= 0x1_0000_0000_0000_0000
            * 1_000_000) by (nonlinear_arith)
            requires
                -0x1_0000_0000_0000_0000 <= offset <= 0x1_0000_0000_0000_0000,
                one == 1_000_000,
        ;
    }
    let share: i128 = offset * one / (420 * u);
    let clamped: i128 = if share < 0 {
        0
    } else if share > one {
        one
    } else {
        share
    };
    (one - clamped / 10) as u32
}

impl SettingsUi {
    /// The settings are well formed.
    pub open spec fn wf(self) -> bool {
        self.config.wf()
    }

    /// Whether the handle is being dragged after this sample: a press on
    /// the handle takes hold of it, and letting go of the button releases
    /// it.
    pub open spec fn drags(self, sample: Sample, unit: int) -> bool {
        sample.down && (self.dragging || (sample.pressed && handle_spec(
            self.config.threshold as int,
            unit,
        ).contains_spec(sample.mouse)))
    }

    /// The threshold after this sample: the slider's, while the handle is
    /// dragged.
    pub open spec fn threshold_after(self, sample: Sample, unit: int) -> int {
        if self.drags(sample, unit) {
            threshold_at_spec(sample.mouse.x as int, unit)
        } else {
            self.config.threshold as int
        }
    }

    /// Whether this sample presses the radio button for hexagons.
    pub open spec fn picks_hexagon(sample: Sample, unit: int) -> bool {
        sample.pressed && hexagon_box_spec(unit).contains_spec(sample.mouse)
    }

    /// Whether this sample presses the radio button for hearts, and not the
    /// one for hexagons.
    pub open spec fn picks_heart(sample: Sample, unit: int) -> bool {
        &&& sample.pressed
        &&& !hexagon_box_spec(unit).contains_spec(sample.mouse)
        &&& heart_box_spec(unit).contains_spec(sample.mouse)
    }

    /// Whether this sample presses the save button, and no radio button.
    pub open spec fn picks_ok(sample: Sample, unit: int) -> bool {
        &&& sample.pressed
        &&& !hexagon_box_spec(unit).contains_spec(sample.mouse)
        &&& !heart_box_spec(unit).contains_spec(sample.mouse)
        &&& ok_button_spec(unit).contains_spec(sample.mouse)
    }

    /// The window's state after a sample.
    pub open spec fn after(self, sample: Sample, unit: int) -> SettingsUi {
        let threshold = self.threshold_after(sample, unit) as u32;
        let dragging = self.drags(sample, unit);
        if Self::picks_hexagon(sample, unit) {
            SettingsUi {
                config: Config { shape: ShapeType::Hexagon, threshold },
                selected_hexagon: true,
                selected_heart: false,
                dragging,
            }
        } else if Self::picks_heart(sample, unit) {
            SettingsUi {
                config: Config { shape: ShapeType::Heart, threshold },
                selected_hexagon: false,
                selected_heart: true,
                dragging,
            }
        } else {
            SettingsUi { config: Config { threshold, ..self.config }, dragging, ..self }
        }
    }

    /// What the window does after a sample: it saves and closes on the save
    /// button, closes on the escape key, and stays open otherwise.
    pub open spec fn outcome(sample: Sample, unit: int) -> Outcome {
        if Self::picks_ok(sample, unit) {
            Outcome::Save
        } else if sample.escape {
            Outcome::Cancel
        } else {
            Outcome::Continue
        }
    }

    /// The window as it opens on the given settings.
    pub fn new(config: Config) -> (ui: SettingsUi)
        ensures
            ui.config == config,
            ui.selected_hexagon == (config.shape == ShapeType::Hexagon),
            ui.selected_heart == (config.shape == ShapeType::Heart),
            !ui.dragging,
    {
        let hexagon: bool = match config.shape {
            ShapeType::Hexagon => true,
            ShapeType::Heart => false,
        };
        SettingsUi {
            config,
            selected_hexagon: hexagon,
            selected_heart: !hexagon,
            dragging: false,
        }
    }

    /// Applies one sample to the window and tells what it does next.
    pub fn frame(&mut self, sample: Sample, unit: u32) -> (outcome: Outcome)
        requires
            unit > 0,
            old(self).wf(),
        ensures
            *final(self) == old(self).after(sample, unit as int),
            outcome == Self::outcome(sample, unit as int),
            final(self).wf(),
    {
        let grip = handle(self.config.threshold, unit);
        if sample.pressed && grip.contains(sample.mouse) {
            self.dragging = true;
        }
        if !sample.down {
            self.dragging = false;
        }
        if self.dragging {
            self.config.threshold = threshold_at(sample.mouse.x, unit);
        }
        if sample.pressed {
            if hexagon_box(unit).contains(sample.mouse) {
                self.selected_hexagon = true;
                self.selected_heart = false;
                self.config.shape = ShapeType::Hexagon;
            } else if heart_box(unit).contains(sample.mouse) {
                self.selected_hexagon = false;
                self.selected_heart = true;
                self.config.shape = ShapeType::Heart;
            } else if ok_button(unit).contains(sample.mouse) {
                return Outcome::Save;
            }
        }
        if sample.escape {
            Outcome::Cancel
        } else {
            Outcome::Continue
        }
    }
}

} // verus!
