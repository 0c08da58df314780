//! What a renderer is asked to draw for one frame.

use vstd::prelude::*;
use crate::color::Color;
use crate::rect::{Area, Rect};
use crate::vector::{Vec2, Vector};

verus! {

/// The model of a draw command.
pub enum Figure {
    /// The arena, filled with the renderer's background colour.
    Ground { rect: Area },
    /// A particle: a filled circle.
    Disc { center: Vector, radius: int, color: Color },
    /// A ring obstacle: a circle stroked `width` thick.
    Hoop { center: Vector, radius: int, width: int, color: Color },
}

/// A draw command in fixed-point coordinates.
#[derive(Clone, Copy, PartialEq, Eq, Structural, Debug)]
pub enum Shape {
    /// Fill a rectangle with the renderer's background colour.
    RectFilled { rect: Rect },
    /// Fill a circle.
    CircleFilled { center: Vec2, radius: i64, color: Color },
    /// Stroke a circle `width` thick.
    CircleStroke { center: Vec2, radius: i64, width: i64, color: Color },
}

impl View for Shape {
    type V = Figure;

    open spec fn view(&self) -> Figure {
        match *self {
            Shape::RectFilled { rect } => Figure::Ground { rect: rect@ },
            Shape::CircleFilled { center, radius, color } => Figure::Disc {
                center: center@,
                radius: radius as int,
                color,
            },
            Shape::CircleStroke { center, radius, width, color } => Figure::Hoop {
                center: center@,
                radius: radius as int,
                width: width as int,
                color,
            },
        }
    }
}

/// The models of a list of draw commands, in order.
pub open spec fn figures(shapes: Seq<Shape>) -> Seq<Figure> {
    shapes.map_values(|shape: Shape| shape@)
}

} // verus!
