//! The integrator: gravity, damping and the advance of a particle's position.

use vstd::prelude::*;
use crate::dot::{Dot, Particle};
use crate::fixed::{confine, confine_exec, floor_div, lemma_product_bound, within, LIMIT, UNIT};
use crate::vector::{lemma_quotient_bound, Vec2, Vector};

verus! {

impl Particle {
    /// One frame of free motion. Gravity adds `gravity * delta` to the
    /// vertical velocity, `delta` being the elapsed time; the velocity is then
    /// scaled by `damping`, the share of it that survives the frame; and the
    /// position moves on by the whole new velocity, not by `delta` times it.
    /// Quotients are rounded down and the velocity is kept within the stored
    /// range.
    pub open spec fn integrate(self, gravity: int, delta: int, damping: int) -> Particle {
        let fallen = self.velocity.y + gravity * delta / (UNIT as int);
        let velocity = Vector {
            x: confine(self.velocity.x * damping / (UNIT as int)),
            y: confine(fallen * damping / (UNIT as int)),
        };
        Particle { position: self.position.plus(velocity), velocity, color: self.color }
    }
}

impl Dot {
    /// Moves the particle through one frame of `delta` elapsed time.
    pub fn integrate(&self, gravity: i64, delta: i64, damping: i64) -> (out: Dot)
        requires
            self@.wf(),
            within(gravity as int, LIMIT as int),
            within(delta as int, LIMIT as int),
            within(damping as int, LIMIT as int),
        ensures
            out@ == self@.integrate(gravity as int, delta as int, damping as int),
            out@.velocity.within(LIMIT as int),
            out@.position.within(2 * LIMIT),
    {
        proof {
            lemma_product_bound(gravity as int, delta as int, 1, 1);
            lemma_quotient_bound(gravity * delta, UNIT as int);
        }
        let gain: i128 = floor_div((gravity as i128) * (delta as i128), UNIT as i128);
        let fallen: i128 = self.velocity.y as i128 + gain;
        proof {
            lemma_product_bound(self.velocity.x as int, damping as int, 1, 1);
            lemma_product_bound(fallen as int, damping as int, LIMIT + 1, 1);
        }
        let vx: i64 = confine_exec(floor_div((self.velocity.x as i128) * (damping as i128), UNIT as i128));
        let vy: i64 = confine_exec(floor_div(fallen * (damping as i128), UNIT as i128));
        Dot {
            position: Vec2 { x: self.position.x + vx, y: self.position.y + vy },
            velocity: Vec2 { x: vx, y: vy },
            color: self.color,
        }
    }
}

} // verus!
