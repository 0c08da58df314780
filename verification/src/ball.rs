//! A free-standing ball: a particle record that is not part of a simulation.

use vstd::prelude::*;
use crate::color::Color;
use crate::dot::Particle;
use crate::vector::Vec2;

verus! {

/// A ball in fixed-point coordinates.
#[derive(Clone, Copy, PartialEq, Eq, Structural, Debug)]
pub struct Ball {
    pub position: Vec2,
    pub velocity: Vec2,
    pub color: Color,
}

impl View for Ball {
    type V = Particle;

    open spec fn view(&self) -> Particle {
        Particle { position: self.position@, velocity: self.velocity@, color: self.color }
    }
}

impl Ball {
    /// A ball with the given position, velocity and colour.
    pub fn new(position: Vec2, velocity: Vec2, color: Color) -> (ball: Ball)
        ensures
            ball.position == position,
            ball.velocity == velocity,
            ball.color == color,
    {
        Ball { position, velocity, color }
    }
}

impl Default for Ball {
    /// A white ball at rest at `(840, 0)`.
    fn default() -> (ball: Ball)
        ensures
            ball.position == (Vec2 { x: 840_000_000, y: 0 }),
            ball.velocity == (Vec2 { x: 0, y: 0 }),
            ball.color == Color::white(),
    {
        Ball { position: Vec2::new(840_000_000, 0), velocity: Vec2::new(0, 0), color: Color::white() }
    }
}

} // verus!
