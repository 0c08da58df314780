//! Axis-aligned rectangles: the viewport, the arena cut out of it, and the
//! pad on which a spawn point is picked.

use vstd::prelude::*;
use crate::fixed::{clamp, clamp_exec, floor_div, VIEW_LIMIT};
use crate::vector::{Vec2, Vector};

verus! {

/// The model of a rectangle: its corner of least and of greatest coordinates.
pub struct Area {
    pub min: Vector,
    pub max: Vector,
}

impl Area {
    /// Extent along the x axis.
    pub open spec fn width(self) -> int {
        self.max.x - self.min.x
    }

    /// Extent along the y axis.
    pub open spec fn height(self) -> int {
        self.max.y - self.min.y
    }

    /// The midpoint, each coordinate rounded down.
    pub open spec fn center(self) -> Vector {
        Vector { x: (self.min.x + self.max.x) / 2, y: (self.min.y + self.max.y) / 2 }
    }

    /// Neither extent is negative.
    pub open spec fn ordered(self) -> bool {
        self.min.x <= self.max.x && self.min.y <= self.max.y
    }

    /// All four coordinates lie in `[-bound, bound]`.
    pub open spec fn within(self, bound: int) -> bool {
        self.min.within(bound) && self.max.within(bound)
    }

    /// `other` lies inside `self`, edges included.
    pub open spec fn contains(self, other: Area) -> bool {
        &&& self.min.x <= other.min.x
        &&& other.max.x <= self.max.x
        &&& self.min.y <= other.min.y
        &&& other.max.y <= self.max.y
    }

    /// The square that reaches `side / 2` (rounded down) from `center` in each
    /// direction.
    pub open spec fn from_center_size(center: Vector, side: int) -> Area {
        Area {
            min: Vector { x: center.x - side / 2, y: center.y - side / 2 },
            max: Vector { x: center.x + side / 2, y: center.y + side / 2 },
        }
    }

    /// The side of the arena for this viewport: 95 % of its lesser extent.
    pub open spec fn arena_side(self) -> int {
        let w = self.width() * 95 / 100;
        let h = self.height() * 95 / 100;
        if w <= h {
            w
        } else {
            h
        }
    }

    /// The arena for this viewport: the square of side `arena_side` about the
    /// viewport's midpoint.
    pub open spec fn arena(self) -> Area {
        Area::from_center_size(self.center(), self.arena_side())
    }

    /// The point of the rectangle nearest to `p`.
    pub open spec fn clamp(self, p: Vector) -> Vector {
        Vector { x: clamp(p.x, self.min.x, self.max.x), y: clamp(p.y, self.min.y, self.max.y) }
    }
}

/// The arena is a square about the viewport's midpoint, lies inside the
/// viewport, and has a positive side as soon as the viewport's extents reach
/// three steps.
pub proof fn lemma_arena_shape(view: Area)
    requires
        view.ordered(),
    ensures
        view.arena().width() == view.arena().height(),
        view.arena().center() == view.center(),
        view.arena().ordered(),
        view.contains(view.arena()),
        view.width() >= 3 && view.height() >= 3 ==> view.arena().width() > 0,
{
}

/// A rectangle with fixed-point corners.
#[derive(Clone, Copy, PartialEq, Eq, Structural, Debug)]
pub struct Rect {
    pub min: Vec2,
    pub max: Vec2,
}

impl View for Rect {
    type V = Area;

    open spec fn view(&self) -> Area {
        Area { min: self.min@, max: self.max@ }
    }
}

impl Rect {
    /// The rectangle with the given corners.
    pub fn new(min: Vec2, max: Vec2) -> (r: Rect)
        ensures
            r.min == min,
            r.max == max,
    {
        Rect { min, max }
    }

    /// The empty rectangle at the origin.
    pub fn zero() -> (r: Rect)
        ensures
            r@ == (Area { min: Vector { x: 0, y: 0 }, max: Vector { x: 0, y: 0 } }),
    {
        Rect { min: Vec2 { x: 0, y: 0 }, max: Vec2 { x: 0, y: 0 } }
    }

    /// Extent along the x axis.
    pub fn width(&self) -> (w: i64)
        requires
            self@.within(VIEW_LIMIT as int),
        ensures
            w == self@.width(),
    {
        self.max.x - self.min.x
    }

    /// Extent along the y axis.
    pub fn height(&self) -> (h: i64)
        requires
            self@.within(VIEW_LIMIT as int),
        ensures
            h == self@.height(),
    {
        self.max.y - self.min.y
    }

    /// The midpoint, each coordinate rounded down.
    pub fn center(&self) -> (c: Vec2)
        requires
            self@.within(VIEW_LIMIT as int),
        ensures
            c@ == self@.center(),
            c@.within(VIEW_LIMIT as int),
    {
        let cx: i128 = floor_div(self.min.x as i128 + self.max.x as i128, 2);
        let cy: i128 = floor_div(self.min.y as i128 + self.max.y as i128, 2);
        Vec2 { x: cx as i64, y: cy as i64 }
    }

    /// The square that reaches `side / 2` from `center` in each direction.
    pub fn from_center_size(center: Vec2, side: i64) -> (r: Rect)
        requires
            center@.within(VIEW_LIMIT as int),
            -2 * VIEW_LIMIT <= side <= 2 * VIEW_LIMIT,
        ensures
            r@ == Area::from_center_size(center@, side as int),
    {
        let half: i64 = floor_div(side as i128, 2) as i64;
        Rect {
            min: Vec2 { x: center.x - half, y: center.y - half },
            max: Vec2 { x: center.x + half, y: center.y + half },
        }
    }

    /// The arena for this viewport.
    pub fn arena(&self) -> (a: Rect)
        requires
            self@.within(VIEW_LIMIT as int),
            self@.ordered(),
        ensures
            a@ == self@.arena(),
            a@.within(VIEW_LIMIT as int),
    {
        let w: i64 = floor_div(self.width() as i128 * 95, 100) as i64;
        let h: i64 = floor_div(self.height() as i128 * 95, 100) as i64;
        let side: i64 = if w <= h {
            w
        } else {
            h
        };
        proof {
            lemma_arena_shape(self@);
        }
        Rect::from_center_size(self.center(), side)
    }

    /// The point of the rectangle nearest to `p`.
    pub fn clamp(&self, p: Vec2) -> (q: Vec2)
        ensures
            q@ == self@.clamp(p@),
    {
        Vec2 {
            x: clamp_exec(p.x, self.min.x, self.max.x),
            y: clamp_exec(p.y, self.min.y, self.max.y),
        }
    }
}

} // verus!
