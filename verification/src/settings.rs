//! What the settings panel reports to the simulation once per frame.

use vstd::prelude::*;
use crate::color::Color;
use crate::fixed::{LIMIT, VIEW_LIMIT};
use crate::vector::Vec2;

verus! {

/// Least particle radius: one pixel.
pub const DOT_SIZE_MIN: i64 = 1_000_000;

/// Greatest particle radius: 25 pixels.
pub const DOT_SIZE_MAX: i64 = 25_000_000;

/// Least gravity.
pub const GRAVITY_MIN: i64 = 1_000_000;

/// Greatest gravity.
pub const GRAVITY_MAX: i64 = 10_000_000;

/// Least air resistance: none.
pub const AIR_RESISTANCE_MIN: i64 = 0;

/// Greatest air resistance: total.
pub const AIR_RESISTANCE_MAX: i64 = 1_000_000;

/// Least stroke thickness of a ring: 5 pixels.
pub const RING_THICKNESS_MIN: i64 = 5_000_000;

/// Greatest stroke thickness of a ring: 25 pixels.
pub const RING_THICKNESS_MAX: i64 = 25_000_000;

/// The open section in which a particle's spawn point is picked on a square
/// pad and a particle is spawned.
#[derive(Clone, Copy, PartialEq, Eq, Structural, Debug)]
pub struct DotPanel {
    /// Side of the pad.
    pub width: i64,
    /// How far the spawn point was dragged in this frame.
    pub drag: Vec2,
    /// The spawn button was clicked.
    pub spawn: bool,
    /// The colour that the colour button shows at the end of the frame.
    pub color: Color,
}

impl DotPanel {
    /// The pad has a side in `[0, VIEW_LIMIT]`, positive where a particle is
    /// to be spawned, and the drag lies within the stored range.
    pub open spec fn valid(self) -> bool {
        &&& 0 <= self.width <= VIEW_LIMIT
        &&& self.drag@.within(LIMIT as int)
        &&& self.spawn ==> self.width > 0
    }
}

/// The open section in which a ring's radius is chosen and a ring is spawned.
#[derive(Clone, Copy, PartialEq, Eq, Structural, Debug)]
pub struct RingPanel {
    /// The radius that the slider shows.
    pub radius: i64,
    /// The spawn button was clicked.
    pub spawn: bool,
    /// The colour that the colour button shows at the end of the frame.
    pub color: Color,
}

/// Everything the settings panel reports in one frame.
#[derive(Clone, Copy, PartialEq, Eq, Structural, Debug)]
pub struct Settings {
    /// The pause button was clicked.
    pub toggle_pause: bool,
    /// The value of the particle radius slider.
    pub dot_size: i64,
    /// The value of the gravity slider.
    pub gravity: i64,
    /// The value of the air resistance slider.
    pub air_resistance: i64,
    /// The value of the ring thickness slider.
    pub ring_thickness: i64,
    /// The particle section, where it is open.
    pub dot_panel: Option<DotPanel>,
    /// The ring section, where it is open.
    pub ring_panel: Option<RingPanel>,
}

impl Settings {
    /// The particle section, where open, is valid.
    pub open spec fn valid(self) -> bool {
        self.dot_panel matches Some(panel) ==> panel.valid()
    }
}

} // verus!
