//! A two-dimensional particle sandbox on fixed-point numbers.
//!
//! Circular particles fall under gravity inside a square arena, bounce off its
//! walls and are deflected by one another and by static ring-shaped obstacles.
//! Every quantity is an integer count of millionths ([`fixed::UNIT`] steps to a
//! whole), so each rule of the simulation is an exact statement about integers.

pub mod fixed;
pub mod vector;
pub mod color;
pub mod rect;
pub mod dot;
pub mod ring;
pub mod ball;
pub mod collision;
pub mod integrator;
pub mod settings;
pub mod shape;
pub mod world;
pub mod simulation;
pub mod theorems;
