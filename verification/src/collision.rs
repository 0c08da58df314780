//! The collision resolver: how a particle answers another particle, a ring
//! obstacle and the walls of the arena.
//!
//! Distances are compared by their squares, so every test of a capture band
//! is exact: `a <= |d| <= b` for non-negative `a` and `b` holds just when
//! `a * a <= d . d <= b * b`.

use vstd::prelude::*;
use crate::dot::{Dot, Particle};
use crate::fixed::{
    div_away, div_away_exec, is_sqrt_floor, isqrt, lemma_product_bound, lemma_sqrt_floor_exists,
    sqrt_floor, within, LIMIT, VIEW_LIMIT,
};
use crate::rect::{Area, Rect};
use crate::ring::{Obstacle, Ring};
use crate::vector::{Vec2, Vector};

verus! {

impl Particle {
    /// A particle at `other` is between half a radius and two radii away:
    /// `r / 2 <= |position - other| <= 2 r`.
    pub open spec fn touches(self, other: Vector, r: int) -> bool {
        let dd = self.position.minus(other).norm_sq();
        r * r <= 4 * dd && dd <= 4 * (r * r)
    }

    /// The answer to one other particle: within the band the velocity is
    /// reflected about the line of centres; the position never changes.
    pub open spec fn collide(self, other: Vector, r: int) -> Particle {
        if self.touches(other, r) {
            self.with_velocity(self.velocity.reflect(self.position.minus(other)))
        } else {
            self
        }
    }

    /// The answer to the first `k` of `others`, taken in order, where the
    /// particle itself stands at index `me` and is passed over.
    pub open spec fn collide_all(self, me: int, others: Seq<Particle>, r: int, k: int) -> Particle
        decreases k,
    {
        if k <= 0 {
            self
        } else {
            let before = self.collide_all(me, others, r, k - 1);
            if k - 1 == me {
                before
            } else {
                before.collide(others[k - 1].position, r)
            }
        }
    }

    /// The particle is caught by a ring: its centre is neither nearer to the
    /// ring's centre than `inner = radius - r` nor farther than
    /// `outer = radius + t + r`, for the shared particle radius `r` and stroke
    /// thickness `t`. A particle that sits on the ring's centre has no
    /// direction to be pushed in and is not caught.
    pub open spec fn in_band(self, ring: Obstacle, r: int, t: int) -> bool {
        let dd = self.position.minus(ring.center).norm_sq();
        let inner = ring.radius - r;
        let outer = ring.radius + t + r;
        &&& dd > 0
        &&& inner <= 0 || inner * inner <= dd
        &&& 0 <= outer && dd <= outer * outer
    }

    /// The particle is strictly nearer to the ring's centre than `outer`.
    pub open spec fn penetrates(self, ring: Obstacle, r: int, t: int) -> bool {
        let dd = self.position.minus(ring.center).norm_sq();
        let outer = ring.radius + t + r;
        dd < outer * outer
    }

    /// The point at distance `inner` from the ring's centre in the direction
    /// of the particle: `center + d * inner / |d|`, with `|d|` taken as the
    /// integer part of the root and each offset rounded away from zero, so
    /// that the point is never nearer to the centre than `inner`.
    pub open spec fn snapped(self, ring: Obstacle, r: int) -> Vector {
        let d = self.position.minus(ring.center);
        let len = sqrt_floor(d.norm_sq());
        let inner = ring.radius - r;
        Vector {
            x: ring.center.x + div_away(d.x * inner, len),
            y: ring.center.y + div_away(d.y * inner, len),
        }
    }

    /// The answer to one ring: a caught particle has its velocity reflected
    /// about the radial direction and, where it penetrates, is set onto the
    /// inner circle.
    pub open spec fn collide_ring(self, ring: Obstacle, r: int, t: int) -> Particle {
        if self.in_band(ring, r, t) {
            let turned = self.with_velocity(
                self.velocity.reflect(self.position.minus(ring.center)),
            );
            if self.penetrates(ring, r, t) {
                turned.with_position(self.snapped(ring, r))
            } else {
                turned
            }
        } else {
            self
        }
    }

    /// The answer to the first `k` of `rings`, taken in order.
    pub open spec fn collide_rings(self, rings: Seq<Obstacle>, r: int, t: int, k: int) -> Particle
        decreases k,
    {
        if k <= 0 {
            self
        } else {
            self.collide_rings(rings, r, t, k - 1).collide_ring(rings[k - 1], r, t)
        }
    }

    /// Some edge of the particle lies beyond a wall of the arena.
    pub open spec fn hits_edge(self, area: Area, r: int) -> bool {
        ||| self.position.y + r > area.max.y
        ||| self.position.y - r < area.min.y
        ||| self.position.x - r < area.min.x
        ||| self.position.x + r > area.max.x
    }

    /// The answer to the walls. On each axis by itself: where the particle
    /// reaches beyond a wall it is set back to touch that wall from inside
    /// and its velocity along that axis changes sign. The bottom wall is
    /// looked at before the top one, the left wall before the right one.
    pub open spec fn bounce(self, area: Area, r: int) -> Particle {
        let p = self.position;
        let v = self.velocity;
        let down = p.y + r > area.max.y;
        let up = !down && p.y - r < area.min.y;
        let left = p.x - r < area.min.x;
        let right = !left && p.x + r > area.max.x;
        Particle {
            position: Vector {
                x: if left {
                    area.min.x + r
                } else if right {
                    area.max.x - r
                } else {
                    p.x
                },
                y: if down {
                    area.max.y - r
                } else if up {
                    area.min.y + r
                } else {
                    p.y
                },
            },
            velocity: Vector {
                x: if left || right {
                    -v.x
                } else {
                    v.x
                },
                y: if down || up {
                    -v.y
                } else {
                    v.y
                },
            },
            color: self.color,
        }
    }
}

/// Wherever a particle stood, after the walls have answered it stands within
/// the stored range.
pub proof fn lemma_bounce_wf(p: Particle, area: Area, r: int)
    requires
        p.velocity.within(LIMIT as int),
        area.within(VIEW_LIMIT as int),
        0 < r <= VIEW_LIMIT,
    ensures
        p.bounce(area, r).wf(),
{
}

/// No component of a vector exceeds the integer part of its length.
pub proof fn lemma_component_below_root(d: Vector, len: int)
    by (nonlinear_arith)
    requires
        is_sqrt_floor(d.x * d.x + d.y * d.y, len),
    ensures
        within(d.x, len),
        within(d.y, len),
{
    assert(d.x * d.x >= 0 && d.y * d.y >= 0);
    if d.x > len {
        assert(d.x * d.x >= (len + 1) * (len + 1));
    }
    if d.x < -len {
        assert(d.x * d.x >= (len + 1) * (len + 1));
    }
    if d.y > len {
        assert(d.y * d.y >= (len + 1) * (len + 1));
    }
    if d.y < -len {
        assert(d.y * d.y >= (len + 1) * (len + 1));
    }
}

/// A quotient rounded away from zero stays within `k` when the numerator
/// stays within `d * k`.
pub proof fn lemma_div_away_bound(n: int, d: int, k: int)
    requires
        d > 0,
        k >= 0,
        within(n, d * k),
    ensures
        within(div_away(n, d), k),
        n >= 0 ==> div_away(n, d) >= 0,
        n <= 0 ==> div_away(n, d) <= 0,
{
    let m = if n >= 0 {
        n
    } else {
        -n
    };
    assert(d * k + d - 1 == k * d + (d - 1)) by (nonlinear_arith);
    vstd::arithmetic::div_mod::lemma_div_is_ordered(m + d - 1, d * k + d - 1, d);
    vstd::arithmetic::div_mod::lemma_fundamental_div_mod_converse(d * k + d - 1, d, k, d - 1);
    vstd::arithmetic::div_mod::lemma_div_pos_is_pos(m + d - 1, d);
    if n == 0 {
        vstd::arithmetic::div_mod::lemma_basic_div(d - 1, d);
    }
}

/// A particle that a ring has set onto its inner circle stands within the
/// stored range.
pub proof fn lemma_snapped_within(p: Particle, ring: Obstacle, r: int)
    requires
        ring.wf(),
        0 < r <= VIEW_LIMIT,
        p.position.minus(ring.center).norm_sq() > 0,
    ensures
        p.snapped(ring, r).within(LIMIT as int),
{
    let d = p.position.minus(ring.center);
    let len = sqrt_floor(d.norm_sq());
    let inner = ring.radius - r;
    let reach = if inner >= 0 {
        inner
    } else {
        -inner
    };
    lemma_sqrt_floor_exists(d.norm_sq());
    lemma_component_below_root(d, len);
    assert(len > 0) by (nonlinear_arith)
        requires
            is_sqrt_floor(d.norm_sq(), len),
            d.norm_sq() > 0,
    ;
    assert(within(d.x * inner, len * reach) && within(d.y * inner, len * reach))
        by (nonlinear_arith)
        requires
            within(d.x, len),
            within(d.y, len),
            within(inner, reach),
            reach >= 0,
            len > 0,
    ;
    lemma_div_away_bound(d.x * inner, len, reach);
    lemma_div_away_bound(d.y * inner, len, reach);
}

/// Answering other particles changes neither place nor colour and keeps a
/// particle within the stored range.
pub proof fn lemma_collide_all_wf(p: Particle, me: int, others: Seq<Particle>, r: int, k: int)
    requires
        p.wf(),
    ensures
        p.collide_all(me, others, r, k).wf(),
        p.collide_all(me, others, r, k).position == p.position,
        p.collide_all(me, others, r, k).color == p.color,
    decreases k,
{
    if k > 0 {
        lemma_collide_all_wf(p, me, others, r, k - 1);
    }
}

/// Answering a ring keeps a particle within the stored range.
pub proof fn lemma_collide_ring_wf(p: Particle, ring: Obstacle, r: int, t: int)
    requires
        p.wf(),
        ring.wf(),
        0 < r <= VIEW_LIMIT,
    ensures
        p.collide_ring(ring, r, t).wf(),
        p.collide_ring(ring, r, t).color == p.color,
{
    if p.in_band(ring, r, t) {
        lemma_snapped_within(p, ring, r);
    }
}

/// Answering rings keeps a particle within the stored range.
pub proof fn lemma_collide_rings_wf(p: Particle, rings: Seq<Obstacle>, r: int, t: int, k: int)
    requires
        p.wf(),
        0 < r <= VIEW_LIMIT,
        0 <= k <= rings.len(),
        forall|i: int| 0 <= i < rings.len() ==> (#[trigger] rings[i]).wf(),
    ensures
        p.collide_rings(rings, r, t, k).wf(),
        p.collide_rings(rings, r, t, k).color == p.color,
    decreases k,
{
    if k > 0 {
        lemma_collide_rings_wf(p, rings, r, t, k - 1);
        lemma_collide_ring_wf(p.collide_rings(rings, r, t, k - 1), rings[k - 1], r, t);
    }
}

impl Dot {
    /// Whether a particle at `other` is within the band of this one.
    pub fn touches(&self, other: Vec2, r: i64) -> (b: bool)
        requires
            self@.wf(),
            other@.within(LIMIT as int),
            0 < r <= VIEW_LIMIT,
        ensures
            b == self@.touches(other@, r as int),
    {
        let dd: i128 = self.position.minus(other).norm_sq();
        proof {
            lemma_product_bound(r as int, r as int, 1, 1);
        }
        let rr: i128 = (r as i128) * (r as i128);
        rr <= 4 * dd && dd <= 4 * rr
    }

    /// Answers one other particle.
    pub fn collide(&self, other: Vec2, r: i64) -> (out: Dot)
        requires
            self@.wf(),
            other@.within(LIMIT as int),
            0 < r <= VIEW_LIMIT,
        ensures
            out@ == self@.collide(other@, r as int),
            out@.wf(),
    {
        if self.touches(other, r) {
            let d: Vec2 = self.position.minus(other);
            assert(d@.norm_sq() > 0) by (nonlinear_arith)
                requires
                    r * r <= 4 * d@.norm_sq(),
                    r > 0,
            ;
            Dot { position: self.position, velocity: self.velocity.reflect(d), color: self.color }
        } else {
            *self
        }
    }

    /// Answers one ring obstacle.
    pub fn collide_ring(&self, ring: &Ring, r: i64, t: i64) -> (out: Dot)
        requires
            self@.wf(),
            ring@.wf(),
            0 < r <= VIEW_LIMIT,
            0 <= t <= VIEW_LIMIT,
        ensures
            out@ == self@.collide_ring(ring@, r as int, t as int),
            out@.wf(),
    {
        let d: Vec2 = self.position.minus(ring.center);
        let dd: i128 = d.norm_sq();
        let inner: i64 = ring.radius - r;
        let outer: i64 = ring.radius + t + r;
        proof {
            lemma_product_bound(inner as int, inner as int, 1, 1);
            lemma_product_bound(outer as int, outer as int, 2, 2);
        }
        let inner_sq: i128 = (inner as i128) * (inner as i128);
        let outer_sq: i128 = (outer as i128) * (outer as i128);
        if dd > 0 && (inner <= 0 || inner_sq <= dd) && dd <= outer_sq {
            let velocity: Vec2 = self.velocity.reflect(d);
            if dd < outer_sq {
                let len: i128 = isqrt(dd);
                proof {
                    lemma_component_below_root(d@, len as int);
                    lemma_snapped_within(self@, ring@, r as int);
                    lemma_product_bound(d.x as int, inner as int, 2, 1);
                    lemma_product_bound(d.y as int, inner as int, 2, 1);
                    assert(len > 0) by (nonlinear_arith)
                        requires
                            is_sqrt_floor(dd as int, len as int),
                            dd > 0,
                    ;
                }
                let ox: i128 = div_away_exec((d.x as i128) * (inner as i128), len);
                let oy: i128 = div_away_exec((d.y as i128) * (inner as i128), len);
                Dot {
                    position: Vec2 {
                        x: (ring.center.x as i128 + ox) as i64,
                        y: (ring.center.y as i128 + oy) as i64,
                    },
                    velocity,
                    color: self.color,
                }
            } else {
                Dot { position: self.position, velocity, color: self.color }
            }
        } else {
            *self
        }
    }

    /// Whether some edge of the particle lies beyond a wall.
    pub fn hits_edge(&self, area: &Rect, r: i64) -> (b: bool)
        requires
            self@.position.within(2 * LIMIT),
            area@.within(VIEW_LIMIT as int),
            0 < r <= VIEW_LIMIT,
        ensures
            b == self@.hits_edge(area@, r as int),
    {
        self.position.y + r > area.max.y || self.position.y - r < area.min.y || self.position.x - r
            < area.min.x || self.position.x + r > area.max.x
    }

    /// Answers the walls of the arena.
    pub fn bounce(&self, area: &Rect, r: i64) -> (out: Dot)
        requires
            self@.position.within(2 * LIMIT),
            self@.velocity.within(LIMIT as int),
            area@.within(VIEW_LIMIT as int),
            0 < r <= VIEW_LIMIT,
        ensures
            out@ == self@.bounce(area@, r as int),
            out@.wf(),
    {
        let mut out: Dot = *self;
        if self.position.y + r > area.max.y {
            out.position.y = area.max.y - r;
            out.velocity.y = -self.velocity.y;
        } else if self.position.y - r < area.min.y {
            out.position.y = area.min.y + r;
            out.velocity.y = -self.velocity.y;
        }
        if self.position.x - r < area.min.x {
            out.position.x = area.min.x + r;
            out.velocity.x = -self.velocity.x;
        } else if self.position.x + r > area.max.x {
            out.position.x = area.max.x - r;
            out.velocity.x = -self.velocity.x;
        }
        out
    }
}

} // verus!
