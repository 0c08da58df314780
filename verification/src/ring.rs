//! Obstacles: static rings that particles bounce off and cannot enter.

use vstd::prelude::*;
use crate::color::Color;
use crate::fixed::VIEW_LIMIT;
use crate::vector::{Vec2, Vector};

verus! {

/// The model of a ring obstacle: its centre, the radius of its centre line,
/// and its colour. The thickness of the stroke is shared by all rings.
pub struct Obstacle {
    pub center: Vector,
    pub radius: int,
    pub color: Color,
}

impl Obstacle {
    /// The centre lies within the range of viewport coordinates and the
    /// radius is positive and no larger than that range.
    pub open spec fn wf(self) -> bool {
        self.center.within(VIEW_LIMIT as int) && 0 < self.radius <= VIEW_LIMIT
    }
}

/// A ring obstacle in fixed-point coordinates.
#[derive(Clone, Copy, PartialEq, Eq, Structural, Debug)]
pub struct Ring {
    pub center: Vec2,
    pub radius: i64,
    pub color: Color,
}

impl View for Ring {
    type V = Obstacle;

    open spec fn view(&self) -> Obstacle {
        Obstacle { center: self.center@, radius: self.radius as int, color: self.color }
    }
}

impl Ring {
    /// A ring with the given centre, radius and colour.
    pub fn new(center: Vec2, radius: i64, color: Color) -> (ring: Ring)
        ensures
            ring.center == center,
            ring.radius == radius,
            ring.color == color,
    {
        Ring { center, radius, color }
    }
}

impl Default for Ring {
    /// A white ring of radius 100 about the origin.
    fn default() -> (ring: Ring)
        ensures
            ring.center == (Vec2 { x: 0, y: 0 }),
            ring.radius == 100_000_000,
            ring.color == Color::white(),
    {
        Ring { center: Vec2::new(0, 0), radius: 100_000_000, color: Color::white() }
    }
}

/// The models of a list of rings, in order.
pub open spec fn obstacles(rings: Seq<Ring>) -> Seq<Obstacle> {
    rings.map_values(|ring: Ring| ring@)
}

} // verus!
