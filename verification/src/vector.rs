//! Two-dimensional vectors: the mathematical model and its fixed-point carrier.

use vstd::prelude::*;
use crate::fixed::{confine, confine_exec, floor_div, lemma_product_bound, within, LIMIT, LIMIT_SQ};

verus! {

/// A vector of the integer plane: the model of a position, an offset or a velocity.
pub struct Vector {
    pub x: int,
    pub y: int,
}

impl Vector {
    /// Component-wise sum.
    pub open spec fn plus(self, other: Vector) -> Vector {
        Vector { x: self.x + other.x, y: self.y + other.y }
    }

    /// Component-wise difference.
    pub open spec fn minus(self, other: Vector) -> Vector {
        Vector { x: self.x - other.x, y: self.y - other.y }
    }

    /// Scalar product.
    pub open spec fn dot(self, other: Vector) -> int {
        self.x * other.x + self.y * other.y
    }

    /// Squared Euclidean length.
    pub open spec fn norm_sq(self) -> int {
        self.x * self.x + self.y * self.y
    }

    /// Both components lie in `[-bound, bound]`.
    pub open spec fn within(self, bound: int) -> bool {
        within(self.x, bound) && within(self.y, bound)
    }

    /// Each component brought into `[-LIMIT, LIMIT]`.
    pub open spec fn confined(self) -> Vector {
        Vector { x: confine(self.x), y: confine(self.y) }
    }

    /// The mirror image of `self` about the line through the origin that is
    /// perpendicular to `d`: `self - 2 (self . n) n` for `n = d / |d|`, each
    /// component of the subtracted part rounded down.
    pub open spec fn mirror(self, d: Vector) -> Vector
        recommends
            d.norm_sq() > 0,
    {
        Vector {
            x: self.x - (2 * self.dot(d) * d.x) / d.norm_sq(),
            y: self.y - (2 * self.dot(d) * d.y) / d.norm_sq(),
        }
    }

    /// The mirror image, kept within the stored range.
    pub open spec fn reflect(self, d: Vector) -> Vector
        recommends
            d.norm_sq() > 0,
    {
        self.mirror(d).confined()
    }
}

/// A vector with fixed-point components.
#[derive(Clone, Copy, PartialEq, Eq, Structural, Debug)]
pub struct Vec2 {
    pub x: i64,
    pub y: i64,
}

impl View for Vec2 {
    type V = Vector;

    open spec fn view(&self) -> Vector {
        Vector { x: self.x as int, y: self.y as int }
    }
}

impl Vec2 {
    /// The vector with the given components.
    pub fn new(x: i64, y: i64) -> (v: Vec2)
        ensures
            v.x == x,
            v.y == y,
    {
        Vec2 { x, y }
    }

    /// The zero vector.
    pub fn zero() -> (v: Vec2)
        ensures
            v.x == 0,
            v.y == 0,
    {
        Vec2 { x: 0, y: 0 }
    }

    /// Component-wise sum of two stored vectors.
    pub fn plus(self, other: Vec2) -> (sum: Vec2)
        requires
            self@.within(2 * LIMIT),
            other@.within(2 * LIMIT),
        ensures
            sum@ == self@.plus(other@),
    {
        Vec2 { x: self.x + other.x, y: self.y + other.y }
    }

    /// Component-wise difference of two stored vectors.
    pub fn minus(self, other: Vec2) -> (diff: Vec2)
        requires
            self@.within(2 * LIMIT),
            other@.within(2 * LIMIT),
        ensures
            diff@ == self@.minus(other@),
    {
        Vec2 { x: self.x - other.x, y: self.y - other.y }
    }

    /// Scalar product.
    pub fn dot(self, other: Vec2) -> (p: i128)
        requires
            self@.within(2 * LIMIT),
            other@.within(2 * LIMIT),
        ensures
            p == self@.dot(other@),
            within(p as int, 8 * LIMIT_SQ),
    {
        proof {
            lemma_product_bound(self.x as int, other.x as int, 2, 2);
            lemma_product_bound(self.y as int, other.y as int, 2, 2);
        }
        (self.x as i128) * (other.x as i128) + (self.y as i128) * (other.y as i128)
    }

    /// Squared Euclidean length.
    pub fn norm_sq(self) -> (n: i128)
        requires
            self@.within(2 * LIMIT),
        ensures
            n == self@.norm_sq(),
            0 <= n <= 8 * LIMIT_SQ,
    {
        proof {
            lemma_product_bound(self.x as int, self.x as int, 2, 2);
            lemma_product_bound(self.y as int, self.y as int, 2, 2);
            assert(self.x * self.x >= 0) by (nonlinear_arith);
            assert(self.y * self.y >= 0) by (nonlinear_arith);
        }
        (self.x as i128) * (self.x as i128) + (self.y as i128) * (self.y as i128)
    }

    /// Reflects a velocity about the direction `d`, which need not be of unit
    /// length but must not vanish.
    pub fn reflect(self, d: Vec2) -> (out: Vec2)
        requires
            self@.within(LIMIT as int),
            d@.within(2 * LIMIT),
            d@.norm_sq() > 0,
        ensures
            out@ == self@.reflect(d@),
            out@.within(LIMIT as int),
    {
        let along: i128 = self.dot(d);
        let dd: i128 = d.norm_sq();
        proof {
            lemma_product_bound(2 * along, d.x as int, 16 * LIMIT, 2);
            lemma_product_bound(2 * along, d.y as int, 16 * LIMIT, 2);
        }
        let nx: i128 = 2 * along * (d.x as i128);
        let ny: i128 = 2 * along * (d.y as i128);
        let ex: i128 = floor_div(nx, dd);
        let ey: i128 = floor_div(ny, dd);
        proof {
            lemma_quotient_bound(nx as int, dd as int);
            lemma_quotient_bound(ny as int, dd as int);
        }
        Vec2 { x: confine_exec(self.x as i128 - ex), y: confine_exec(self.y as i128 - ey) }
    }
}

/// Dividing by a positive number does not increase the magnitude.
pub proof fn lemma_quotient_bound(n: int, d: int)
    requires
        d > 0,
    ensures
        n >= 0 ==> 0 <= n / d <= n,
        n < 0 ==> n <= n / d < 0,
{
    vstd::arithmetic::div_mod::lemma_fundamental_div_mod(n, d);
    vstd::arithmetic::div_mod::lemma_mod_bound(n, d);
    let q = n / d;
    let r = n % d;
    assert(n == d * q + r);
    if n >= 0 {
        assert(q >= 0 && q <= n) by (nonlinear_arith)
            requires
                n == d * q + r,
                0 <= r < d,
                d > 0,
                n >= 0,
        ;
    } else {
        assert(q < 0 && n <= q) by (nonlinear_arith)
            requires
                n == d * q + r,
                0 <= r < d,
                d > 0,
                n < 0,
        ;
    }
}

} // verus!
