//! Particles: moving circular bodies that share one radius.

use vstd::prelude::*;
use crate::color::Color;
use crate::fixed::LIMIT;
use crate::vector::{Vec2, Vector};

verus! {

/// The model of a particle: where it is, how far it moves per frame, and the
/// colour it is drawn in.
pub struct Particle {
    pub position: Vector,
    pub velocity: Vector,
    pub color: Color,
}

impl Particle {
    /// Position and velocity lie within the stored range.
    pub open spec fn wf(self) -> bool {
        self.position.within(LIMIT as int) && self.velocity.within(LIMIT as int)
    }

    /// The same particle with another velocity.
    pub open spec fn with_velocity(self, velocity: Vector) -> Particle {
        Particle { velocity, ..self }
    }

    /// The same particle at another position.
    pub open spec fn with_position(self, position: Vector) -> Particle {
        Particle { position, ..self }
    }
}

/// A particle in fixed-point coordinates.
#[derive(Clone, Copy, PartialEq, Eq, Structural, Debug)]
pub struct Dot {
    pub position: Vec2,
    pub velocity: Vec2,
    pub color: Color,
}

impl View for Dot {
    type V = Particle;

    open spec fn view(&self) -> Particle {
        Particle { position: self.position@, velocity: self.velocity@, color: self.color }
    }
}

impl Dot {
    /// A particle with the given position, velocity and colour.
    pub fn new(position: Vec2, velocity: Vec2, color: Color) -> (dot: Dot)
        ensures
            dot.position == position,
            dot.velocity == velocity,
            dot.color == color,
    {
        Dot { position, velocity, color }
    }
}

impl Default for Dot {
    /// A white particle at rest at the origin.
    fn default() -> (dot: Dot)
        ensures
            dot.position == (Vec2 { x: 0, y: 0 }),
            dot.velocity == (Vec2 { x: 0, y: 0 }),
            dot.color == Color::white(),
    {
        Dot { position: Vec2::new(0, 0), velocity: Vec2::new(0, 0), color: Color::white() }
    }
}

/// The models of a list of particles, in order.
pub open spec fn particles(dots: Seq<Dot>) -> Seq<Particle> {
    dots.map_values(|dot: Dot| dot@)
}

} // verus!
