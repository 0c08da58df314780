//! The simulation: the particle and obstacle stores, the shared parameters
//! and the frame driver, as one value that the host owns.

use vstd::prelude::*;
use crate::color::Color;
use crate::dot::{particles, Dot};
use crate::fixed::{clamp_exec, floor_div, lemma_product_bound, within, LIMIT, VIEW_LIMIT};
use crate::rect::{lemma_arena_shape, Rect};
use crate::ring::{obstacles, Ring};
use crate::settings::{
    DotPanel, RingPanel, Settings, AIR_RESISTANCE_MAX, AIR_RESISTANCE_MIN, DOT_SIZE_MAX,
    DOT_SIZE_MIN, GRAVITY_MAX, GRAVITY_MIN, RING_THICKNESS_MAX, RING_THICKNESS_MIN,
};
use crate::shape::{figures, Shape};
use crate::vector::Vec2;
use crate::world::{lemma_replace_wf, lemma_scaled_within, lemma_set_parameters_wf, World};

verus! {

/// What the host is to do after a frame.
#[derive(Clone, Copy, PartialEq, Eq, Structural, Debug)]
pub struct Frame {
    /// Another frame is wanted at once: the simulation is running.
    pub repaint: bool,
    /// A particle struck a wall in this frame: the cue for a sound.
    pub bounced: bool,
}

/// A particle sandbox.
pub struct Simulation {
    paused: bool,
    simulation_area: Rect,
    dots: Vec<Dot>,
    dot_size: i64,
    gravity: i64,
    air_resistance: i64,
    rings: Vec<Ring>,
    ring_thickness: i64,
    control_dot: Dot,
    control_ring: Ring,
}

impl View for Simulation {
    type V = World;

    closed spec fn view(&self) -> World {
        World {
            paused: self.paused,
            area: self.simulation_area@,
            dots: particles(self.dots@),
            dot_size: self.dot_size as int,
            gravity: self.gravity as int,
            air_resistance: self.air_resistance as int,
            rings: obstacles(self.rings@),
            ring_thickness: self.ring_thickness as int,
            control_dot: self.control_dot@,
            control_ring: self.control_ring@,
        }
    }
}

impl Default for Simulation {
    /// A paused, empty simulation with the parameters at their defaults.
    fn default() -> (sim: Simulation)
        ensures
            sim@ == World::initial(),
            sim@.wf(),
    {
        let sim = Simulation {
            paused: true,
            simulation_area: Rect::zero(),
            dots: Vec::new(),
            dot_size: 15_000_000,
            gravity: 5_000_000,
            air_resistance: 50_000,
            rings: Vec::new(),
            ring_thickness: 5_000_000,
            control_dot: Dot {
                position: Vec2::new(110_000_000, 110_000_000),
                velocity: Vec2::new(0, 0),
                color: Color::white(),
            },
            control_ring: Ring { center: Vec2::new(0, 0), radius: 100_000_000, color: Color::white() },
        };
        assert(sim@.dots =~= Seq::empty());
        assert(sim@.rings =~= Seq::empty());
        sim
    }
}

impl Simulation {
    /// Appends a particle and returns its handle: its place in spawn order.
    /// No particle or ring that was there before is touched.
    pub fn add_dot(&mut self, dot: Dot) -> (handle: usize)
        requires
            old(self)@.wf(),
            dot@.wf(),
        ensures
            final(self)@ == old(self)@.add_dot(dot@),
            handle == old(self)@.dots.len(),
            final(self)@.wf(),
    {
        let handle: usize = self.dots.len();
        let ghost before = self.dots@;
        self.dots.push(dot);
        proof {
            assert(particles(self.dots@) =~= particles(before).push(dot@));
        }
        handle
    }

    /// Appends a ring obstacle and returns its handle: its place in spawn
    /// order. No particle or ring that was there before is touched.
    pub fn add_ring(&mut self, ring: Ring) -> (handle: usize)
        requires
            old(self)@.wf(),
            ring@.wf(),
        ensures
            final(self)@ == old(self)@.add_ring(ring@),
            handle == old(self)@.rings.len(),
            final(self)@.wf(),
    {
        let handle: usize = self.rings.len();
        let ghost before = self.rings@;
        self.rings.push(ring);
        proof {
            assert(obstacles(self.rings@) =~= obstacles(before).push(ring@));
        }
        handle
    }

    /// Spawns a particle at rest.
    pub fn spawn_dot(&mut self, position: Vec2, color: Color) -> (handle: usize)
        requires
            old(self)@.wf(),
            position@.within(LIMIT as int),
        ensures
            final(self)@ == old(self)@.add_dot(
                Dot { position, velocity: Vec2 { x: 0, y: 0 }, color }@,
            ),
            handle == old(self)@.dots.len(),
            final(self)@.wf(),
    {
        self.add_dot(Dot::new(position, Vec2::zero(), color))
    }

    /// Spawns a ring obstacle.
    pub fn spawn_ring(&mut self, center: Vec2, radius: i64, color: Color) -> (handle: usize)
        requires
            old(self)@.wf(),
            center@.within(VIEW_LIMIT as int),
            0 < radius <= VIEW_LIMIT,
        ensures
            final(self)@ == old(self)@.add_ring(Ring { center, radius, color }@),
            handle == old(self)@.rings.len(),
            final(self)@.wf(),
    {
        self.add_ring(Ring::new(center, radius, color))
    }

    /// Particle `i` as one physics step leaves it, and whether it struck a
    /// wall on the way.
    pub fn advance(&self, i: usize, delta: i64, damping: i64) -> (out: (Dot, bool))
        requires
            self@.wf(),
            i < self@.dots.len(),
            within(delta as int, LIMIT as int),
            within(damping as int, LIMIT as int),
        ensures
            out.0@ == self@.advance(i as int, delta as int, damping as int),
            out.1 == self@.moved(i as int, delta as int, damping as int).hits_edge(
                self@.area,
                self@.dot_size,
            ),
            out.0@.wf(),
    {
        let ghost w = self@;
        let n: usize = self.dots.len();
        let mut dot: Dot = self.dots[i];
        assert(dot@ == w.dots[i as int]);
        let mut j: usize = 0;
        while j < n
            invariant
                j <= n,
                n == self.dots.len(),
                i < n,
                w == self@,
                w.wf(),
                dot@ == w.dots[i as int].collide_all(i as int, w.dots, w.dot_size, j as int),
                dot@.wf(),
            decreases n - j,
        {
            if j != i {
                let other: Dot = self.dots[j];
                assert(other@ == w.dots[j as int]);
                dot = dot.collide(other.position, self.dot_size);
            }
            j = j + 1;
        }
        let m: usize = self.rings.len();
        let ghost met = dot@;
        let mut k: usize = 0;
        while k < m
            invariant
                k <= m,
                m == self.rings.len(),
                w == self@,
                w.wf(),
                dot@ == met.collide_rings(w.rings, w.dot_size, w.ring_thickness, k as int),
                dot@.wf(),
            decreases m - k,
        {
            let ring: Ring = self.rings[k];
            assert(ring@ == w.rings[k as int]);
            dot = dot.collide_ring(&ring, self.dot_size, self.ring_thickness);
            k = k + 1;
        }
        let moved: Dot = dot.integrate(self.gravity, delta, damping);
        let hit: bool = moved.hits_edge(&self.simulation_area, self.dot_size);
        (moved.bounce(&self.simulation_area, self.dot_size), hit)
    }

    /// One physics step of `delta` elapsed time, in which the share `damping`
    /// of each velocity survives. Says whether a particle struck a wall.
    pub fn physics_update(&mut self, delta: i64, damping: i64) -> (bounced: bool)
        requires
            old(self)@.wf(),
            within(delta as int, LIMIT as int),
            within(damping as int, LIMIT as int),
        ensures
            final(self)@ == old(self)@.physics_update(delta as int, damping as int),
            bounced == old(self)@.any_bounce(delta as int, damping as int),
            final(self)@.wf(),
    {
        let ghost w = self@;
        let n: usize = self.dots.len();
        let mut next: Vec<Dot> = Vec::new();
        let mut bounced: bool = false;
        let mut i: usize = 0;
        while i < n
            invariant
                i <= n,
                n == self.dots.len(),
                w == self@,
                w.wf(),
                next.len() == i,
                forall|a: int|
                    0 <= a < i ==> (#[trigger] next@[a])@ == w.advance(
                        a,
                        delta as int,
                        damping as int,
                    ) && next@[a]@.wf(),
                bounced == exists|a: int|
                    0 <= a < i && (#[trigger] w.moved(a, delta as int, damping as int)).hits_edge(
                        w.area,
                        w.dot_size,
                    ),
                within(delta as int, LIMIT as int),
                within(damping as int, LIMIT as int),
            decreases n - i,
        {
            let step: (Dot, bool) = self.advance(i, delta, damping);
            next.push(step.0);
            bounced = bounced || step.1;
            i = i + 1;
        }
        proof {
            assert(particles(next@) =~= w.physics_update(delta as int, damping as int).dots);
        }
        self.dots = next;
        bounced
    }

    /// Moves the spawn point by `drag` and keeps it on the pad of side
    /// `width`. Returns that side.
    pub fn move_control_dot(&mut self, drag: Vec2, width: i64) -> (side: i64)
        requires
            old(self)@.wf(),
            0 <= width <= VIEW_LIMIT,
            drag@.within(LIMIT as int),
        ensures
            final(self)@ == old(self)@.move_control_dot(drag@, width as int),
            side == width,
            final(self)@.wf(),
            final(self)@.control_dot.position.within(width as int),
            0 <= final(self)@.control_dot.position.x,
            0 <= final(self)@.control_dot.position.y,
    {
        let ghost before = self@;
        let pad: Rect = Rect::new(Vec2::zero(), Vec2::new(width, width));
        self.control_dot.position = pad.clamp(self.control_dot.position.plus(drag));
        proof {
            lemma_replace_wf(before, self@);
        }
        width
    }

    /// The spawn point, scaled from a pad of side `width` into the arena.
    pub fn control_point(&self, width: i64) -> (point: Vec2)
        requires
            self@.wf(),
            0 < width <= VIEW_LIMIT,
            0 <= self@.control_dot.position.x <= width,
            0 <= self@.control_dot.position.y <= width,
        ensures
            point@ == self@.control_point(width as int),
            point@.within(VIEW_LIMIT as int),
    {
        let span: i128 = self.simulation_area.width() as i128;
        let px: i128 = self.control_dot.position.x as i128;
        let py: i128 = self.control_dot.position.y as i128;
        proof {
            lemma_product_bound(px as int, span as int, 1, 1);
            lemma_product_bound(py as int, span as int, 1, 1);
            lemma_scaled_within(px as int, span as int, width as int);
            lemma_scaled_within(py as int, span as int, width as int);
        }
        let ox: i128 = floor_div(px * span, width as i128);
        let oy: i128 = floor_div(py * span, width as i128);
        assert(0 <= ox <= span && 0 <= oy <= span);
        Vec2 {
            x: (self.simulation_area.min.x as i128 + ox) as i64,
            y: (self.simulation_area.min.y as i128 + oy) as i64,
        }
    }

    /// One frame of the particle section of the settings panel.
    pub fn dot_panel(&mut self, panel: &DotPanel)
        requires
            old(self)@.wf(),
            panel.valid(),
        ensures
            final(self)@ == old(self)@.dot_panel(*panel),
            final(self)@.wf(),
    {
        self.move_control_dot(panel.drag, panel.width);
        if panel.spawn {
            let point: Vec2 = self.control_point(panel.width);
            self.add_dot(Dot::new(point, Vec2::zero(), self.control_dot.color));
        }
        let ghost before = self@;
        self.control_dot.color = panel.color;
        proof {
            lemma_replace_wf(before, self@);
        }
    }

    /// The greatest radius that a new ring may have.
    pub fn ring_radius_max(&self) -> (radius: i64)
        requires
            self@.wf(),
        ensures
            radius == self@.ring_radius_max(),
            self@.dot_size <= radius <= VIEW_LIMIT,
    {
        let span: i128 = self.simulation_area.width() as i128;
        let widest: i64 = floor_div(span * 10, 21) as i64;
        if widest >= self.dot_size {
            widest
        } else {
            self.dot_size
        }
    }

    /// One frame of the ring section of the settings panel.
    pub fn ring_panel(&mut self, panel: &RingPanel)
        requires
            old(self)@.wf(),
        ensures
            final(self)@ == old(self)@.ring_panel(*panel),
            final(self)@.wf(),
    {
        let radius: i64 = clamp_exec(panel.radius, self.dot_size, self.ring_radius_max());
        let ghost start = self@;
        self.control_ring.radius = radius;
        proof {
            lemma_replace_wf(start, self@);
        }
        if panel.spawn {
            let center: Vec2 = self.simulation_area.center();
            self.add_ring(Ring::new(center, radius, self.control_ring.color));
        }
        let ghost before = self@;
        self.control_ring.color = panel.color;
        proof {
            lemma_replace_wf(before, self@);
        }
    }

    /// One frame of the settings panel: the pause button, the four sliders
    /// with their values brought into range, the particle section and the ring
    /// section.
    pub fn settings_window(&mut self, settings: &Settings)
        requires
            old(self)@.wf(),
            settings.valid(),
        ensures
            final(self)@ == old(self)@.settings_window(*settings),
            final(self)@.wf(),
    {
        let ghost start = self@;
        if settings.toggle_pause {
            self.paused = !self.paused;
        }
        let ghost toggled = self@;
        proof {
            lemma_set_parameters_wf(start, *settings);
            lemma_set_parameters_wf(toggled, *settings);
        }
        self.dot_size = clamp_exec(settings.dot_size, DOT_SIZE_MIN, DOT_SIZE_MAX);
        self.gravity = clamp_exec(settings.gravity, GRAVITY_MIN, GRAVITY_MAX);
        self.air_resistance = clamp_exec(
            settings.air_resistance,
            AIR_RESISTANCE_MIN,
            AIR_RESISTANCE_MAX,
        );
        self.ring_thickness = clamp_exec(
            settings.ring_thickness,
            RING_THICKNESS_MIN,
            RING_THICKNESS_MAX,
        );
        assert(self@ == toggled.set_parameters(*settings));
        match settings.dot_panel {
            Some(panel) => {
                self.dot_panel(&panel);
            },
            None => {},
        }
        match settings.ring_panel {
            Some(panel) => {
                self.ring_panel(&panel);
            },
            None => {},
        }
    }

    /// One frame. The settings panel is gone through, the arena is cut out of
    /// the viewport `screen`, and, unless the simulation is paused, one
    /// physics step of `delta` elapsed time runs, in which the share `damping`
    /// of each velocity survives.
    pub fn update(&mut self, settings: &Settings, screen: &Rect, delta: i64, damping: i64) -> (frame:
        Frame)
        requires
            old(self)@.wf(),
            settings.valid(),
            screen@.within(VIEW_LIMIT as int),
            screen@.ordered(),
            within(delta as int, LIMIT as int),
            within(damping as int, LIMIT as int),
        ensures
            final(self)@ == old(self)@.update(*settings, screen@, delta as int, damping as int),
            frame.repaint == !final(self)@.paused,
            frame.bounced == (!final(self)@.paused && old(self)@.placed(
                *settings,
                screen@,
            ).any_bounce(delta as int, damping as int)),
            final(self)@.wf(),
    {
        self.settings_window(settings);
        let ghost set = self@;
        self.simulation_area = screen.arena();
        proof {
            lemma_arena_shape(screen@);
            lemma_replace_wf(set, self@);
        }
        if self.paused {
            Frame { repaint: false, bounced: false }
        } else {
            let bounced: bool = self.physics_update(delta, damping);
            Frame { repaint: true, bounced }
        }
    }

    /// The draw commands for the present state: the arena, the particles in
    /// spawn order, the rings in spawn order.
    pub fn draw_update(&self) -> (shapes: Vec<Shape>)
        ensures
            figures(shapes@) == self@.drawing(),
    {
        let mut shapes: Vec<Shape> = Vec::new();
        shapes.push(Shape::RectFilled { rect: self.simulation_area });
        let n: usize = self.dots.len();
        let mut i: usize = 0;
        while i < n
            invariant
                i <= n,
                n == self.dots.len(),
                shapes.len() == 1 + i,
                shapes@[0] == (Shape::RectFilled { rect: self.simulation_area }),
                forall|a: int|
                    0 <= a < i ==> (#[trigger] shapes@[1 + a]) == (Shape::CircleFilled {
                        center: self.dots@[a].position,
                        radius: self.dot_size,
                        color: self.dots@[a].color,
                    }),
            decreases n - i,
        {
            let dot: Dot = self.dots[i];
            shapes.push(
                Shape::CircleFilled { center: dot.position, radius: self.dot_size, color: dot.color },
            );
            i = i + 1;
        }
        let m: usize = self.rings.len();
        let mut k: usize = 0;
        while k < m
            invariant
                k <= m,
                m == self.rings.len(),
                n == self.dots.len(),
                shapes.len() == 1 + n + k,
                shapes@[0] == (Shape::RectFilled { rect: self.simulation_area }),
                forall|a: int|
                    0 <= a < n ==> (#[trigger] shapes@[1 + a]) == (Shape::CircleFilled {
                        center: self.dots@[a].position,
                        radius: self.dot_size,
                        color: self.dots@[a].color,
                    }),
                forall|a: int|
                    0 <= a < k ==> (#[trigger] shapes@[1 + n + a]) == (Shape::CircleStroke {
                        center: self.rings@[a].center,
                        radius: self.rings@[a].radius,
                        width: self.ring_thickness,
                        color: self.rings@[a].color,
                    }),
            decreases m - k,
        {
            let ring: Ring = self.rings[k];
            shapes.push(
                Shape::CircleStroke {
                    center: ring.center,
                    radius: ring.radius,
                    width: self.ring_thickness,
                    color: ring.color,
                },
            );
            k = k + 1;
        }
        proof {
            let got = figures(shapes@);
            let want = self@.drawing();
            assert(got.len() == want.len());
            assert forall|a: int| 0 <= a < got.len() implies got[a] == want[a] by {
                if a == 0 {
                } else if a < 1 + n {
                    assert(shapes@[1 + (a - 1)] == shapes@[a]);
                } else {
                    assert(shapes@[1 + n + (a - 1 - n)] == shapes@[a]);
                }
            }
            assert(got =~= want);
        }
        shapes
    }

    /// Whether the simulation is paused.
    pub fn is_paused(&self) -> (paused: bool)
        ensures
            paused == self@.paused,
    {
        self.paused
    }

    /// The arena.
    pub fn simulation_area(&self) -> (area: Rect)
        ensures
            area@ == self@.area,
    {
        self.simulation_area
    }

    /// The particles, in spawn order.
    pub fn dots(&self) -> (dots: &Vec<Dot>)
        ensures
            particles(dots@) == self@.dots,
            dots@.len() == self@.dots.len(),
            forall|i: int| 0 <= i < dots@.len() ==> (#[trigger] dots@[i])@ == self@.dots[i],
    {
        &self.dots
    }

    /// The ring obstacles, in spawn order.
    pub fn rings(&self) -> (rings: &Vec<Ring>)
        ensures
            obstacles(rings@) == self@.rings,
            rings@.len() == self@.rings.len(),
            forall|i: int| 0 <= i < rings@.len() ==> (#[trigger] rings@[i])@ == self@.rings[i],
    {
        &self.rings
    }

    /// The radius that all particles share.
    pub fn dot_size(&self) -> (r: i64)
        ensures
            r == self@.dot_size,
    {
        self.dot_size
    }

    /// Downward acceleration.
    pub fn gravity(&self) -> (g: i64)
        ensures
            g == self@.gravity,
    {
        self.gravity
    }

    /// Share of the velocity that a second of flight takes away.
    pub fn air_resistance(&self) -> (a: i64)
        ensures
            a == self@.air_resistance,
    {
        self.air_resistance
    }

    /// The stroke thickness that all rings share.
    pub fn ring_thickness(&self) -> (t: i64)
        ensures
            t == self@.ring_thickness,
    {
        self.ring_thickness
    }

    /// The particle that the settings panel edits.
    pub fn control_dot(&self) -> (dot: Dot)
        ensures
            dot@ == self@.control_dot,
    {
        self.control_dot
    }

    /// The ring that the settings panel edits.
    pub fn control_ring(&self) -> (ring: Ring)
        ensures
            ring@ == self@.control_ring,
    {
        self.control_ring
    }
}

} // verus!
