//! The mathematical model of a simulation: the whole state as one value, and
//! each operation as a function from state to state.

use vstd::prelude::*;
use crate::color::Color;
use crate::dot::Particle;
use crate::fixed::{clamp, VIEW_LIMIT};
use crate::collision::{lemma_bounce_wf, lemma_collide_all_wf, lemma_collide_rings_wf};
use crate::rect::{lemma_arena_shape, Area};
use crate::ring::Obstacle;
use crate::shape::Figure;
use crate::settings::{
    DotPanel, RingPanel, Settings, AIR_RESISTANCE_MAX, AIR_RESISTANCE_MIN, DOT_SIZE_MAX,
    DOT_SIZE_MIN, GRAVITY_MAX, GRAVITY_MIN, RING_THICKNESS_MAX, RING_THICKNESS_MIN,
};
use crate::vector::Vector;

verus! {

/// The state of a simulation.
pub struct World {
    /// No physics runs while this holds.
    pub paused: bool,
    /// The arena.
    pub area: Area,
    /// The particles, in the order in which they were spawned.
    pub dots: Seq<Particle>,
    /// The radius that all particles share.
    pub dot_size: int,
    /// Downward acceleration.
    pub gravity: int,
    /// Share of the velocity that a second of flight takes away.
    pub air_resistance: int,
    /// The ring obstacles, in the order in which they were spawned.
    pub rings: Seq<Obstacle>,
    /// The stroke thickness that all rings share.
    pub ring_thickness: int,
    /// The particle that the settings panel edits; its position is the spawn
    /// point on the pad.
    pub control_dot: Particle,
    /// The ring that the settings panel edits.
    pub control_ring: Obstacle,
}

/// What the host hands over for one frame.
pub struct Input {
    /// The report of the settings panel.
    pub settings: Settings,
    /// The viewport.
    pub screen: Area,
    /// The elapsed time.
    pub delta: int,
    /// The share of each velocity that survives the frame.
    pub damping: int,
}

impl World {
    /// The arena is a square, the parameters lie in their ranges and every
    /// stored quantity within its limit.
    pub open spec fn wf(self) -> bool {
        &&& self.area.within(VIEW_LIMIT as int)
        &&& self.area.ordered()
        &&& self.area.width() == self.area.height()
        &&& forall|i: int| 0 <= i < self.dots.len() ==> (#[trigger] self.dots[i]).wf()
        &&& forall|i: int| 0 <= i < self.rings.len() ==> (#[trigger] self.rings[i]).wf()
        &&& DOT_SIZE_MIN <= self.dot_size <= DOT_SIZE_MAX
        &&& GRAVITY_MIN <= self.gravity <= GRAVITY_MAX
        &&& AIR_RESISTANCE_MIN <= self.air_resistance <= AIR_RESISTANCE_MAX
        &&& RING_THICKNESS_MIN <= self.ring_thickness <= RING_THICKNESS_MAX
        &&& self.control_dot.wf()
        &&& self.control_ring.wf()
    }

    /// The state in which every simulation starts: paused and empty, with an
    /// arena that has no extent yet.
    pub open spec fn initial() -> World {
        World {
            paused: true,
            area: Area { min: Vector { x: 0, y: 0 }, max: Vector { x: 0, y: 0 } },
            dots: Seq::empty(),
            dot_size: 15_000_000,
            gravity: 5_000_000,
            air_resistance: 50_000,
            rings: Seq::empty(),
            ring_thickness: 5_000_000,
            control_dot: Particle {
                position: Vector { x: 110_000_000, y: 110_000_000 },
                velocity: Vector { x: 0, y: 0 },
                color: Color::white(),
            },
            control_ring: Obstacle {
                center: Vector { x: 0, y: 0 },
                radius: 100_000_000,
                color: Color::white(),
            },
        }
    }

    /// One more particle, behind all others.
    pub open spec fn add_dot(self, dot: Particle) -> World {
        World { dots: self.dots.push(dot), ..self }
    }

    /// One more ring, behind all others.
    pub open spec fn add_ring(self, ring: Obstacle) -> World {
        World { rings: self.rings.push(ring), ..self }
    }

    /// From paused to running, or back.
    pub open spec fn toggle_pause(self) -> World {
        World { paused: !self.paused, ..self }
    }

    /// The four sliders, each value brought into its range.
    pub open spec fn set_parameters(self, s: Settings) -> World {
        World {
            dot_size: clamp(s.dot_size as int, DOT_SIZE_MIN as int, DOT_SIZE_MAX as int),
            gravity: clamp(s.gravity as int, GRAVITY_MIN as int, GRAVITY_MAX as int),
            air_resistance: clamp(
                s.air_resistance as int,
                AIR_RESISTANCE_MIN as int,
                AIR_RESISTANCE_MAX as int,
            ),
            ring_thickness: clamp(
                s.ring_thickness as int,
                RING_THICKNESS_MIN as int,
                RING_THICKNESS_MAX as int,
            ),
            ..self
        }
    }

    /// The spawn point follows a drag and stays on the pad, the square from
    /// the origin to `(width, width)`.
    pub open spec fn move_control_dot(self, drag: Vector, width: int) -> World {
        let pad = Area { min: Vector { x: 0, y: 0 }, max: Vector { x: width, y: width } };
        World {
            control_dot: self.control_dot.with_position(
                pad.clamp(self.control_dot.position.plus(drag)),
            ),
            ..self
        }
    }

    /// The spawn point, scaled from a pad of side `width` into the arena.
    pub open spec fn control_point(self, width: int) -> Vector {
        Vector {
            x: self.area.min.x + self.control_dot.position.x * self.area.width() / width,
            y: self.area.min.y + self.control_dot.position.y * self.area.width() / width,
        }
    }

    /// One frame of the particle section: the spawn point moves; on a click a
    /// particle at rest appears where the spawn point lies in the arena, in
    /// the colour shown before this frame; then the colour is taken over.
    pub open spec fn dot_panel(self, panel: DotPanel) -> World {
        let moved = self.move_control_dot(panel.drag@, panel.width as int);
        let spawned = if panel.spawn {
            moved.add_dot(
                Particle {
                    position: moved.control_point(panel.width as int),
                    velocity: Vector { x: 0, y: 0 },
                    color: moved.control_dot.color,
                },
            )
        } else {
            moved
        };
        World { control_dot: Particle { color: panel.color, ..spawned.control_dot }, ..spawned }
    }

    /// The greatest radius that a new ring may have: `10 / 21` of the arena's
    /// width, but no less than the particle radius.
    pub open spec fn ring_radius_max(self) -> int {
        let widest = self.area.width() * 10 / 21;
        if widest >= self.dot_size {
            widest
        } else {
            self.dot_size
        }
    }

    /// One frame of the ring section: the radius is brought between the
    /// particle radius and `ring_radius_max`; on a click a ring of that
    /// radius appears about the arena's midpoint, in the colour shown before
    /// this frame; then the colour is taken over.
    pub open spec fn ring_panel(self, panel: RingPanel) -> World {
        let radius = clamp(panel.radius as int, self.dot_size, self.ring_radius_max());
        let sized = World { control_ring: Obstacle { radius, ..self.control_ring }, ..self };
        let spawned = if panel.spawn {
            sized.add_ring(
                Obstacle { center: sized.area.center(), radius, color: sized.control_ring.color },
            )
        } else {
            sized
        };
        World { control_ring: Obstacle { color: panel.color, ..spawned.control_ring }, ..spawned }
    }

    /// One frame of the settings panel, from top to bottom: the pause button,
    /// the four sliders, the particle section, the ring section.
    pub open spec fn settings_window(self, s: Settings) -> World {
        let toggled = if s.toggle_pause {
            self.toggle_pause()
        } else {
            self
        };
        let tuned = toggled.set_parameters(s);
        let dotted = match s.dot_panel {
            Some(panel) => tuned.dot_panel(panel),
            None => tuned,
        };
        match s.ring_panel {
            Some(panel) => dotted.ring_panel(panel),
            None => dotted,
        }
    }

    /// Particle `i` after it has answered every other particle and then every
    /// ring, as they stood before the frame.
    pub open spec fn jostled(self, i: int) -> Particle {
        self.dots[i].collide_all(i, self.dots, self.dot_size, self.dots.len() as int).collide_rings(
            self.rings,
            self.dot_size,
            self.ring_thickness,
            self.rings.len() as int,
        )
    }

    /// Particle `i` after the integrator has moved it, before the walls are
    /// looked at.
    pub open spec fn moved(self, i: int, delta: int, damping: int) -> Particle {
        self.jostled(i).integrate(self.gravity, delta, damping)
    }

    /// Particle `i` at the end of the frame.
    pub open spec fn advance(self, i: int, delta: int, damping: int) -> Particle {
        self.moved(i, delta, damping).bounce(self.area, self.dot_size)
    }

    /// One physics step: every particle answers the others, then the rings,
    /// then moves, then answers the walls. Nothing else changes.
    pub open spec fn physics_update(self, delta: int, damping: int) -> World {
        World {
            dots: Seq::new(self.dots.len(), |i: int| self.advance(i, delta, damping)),
            ..self
        }
    }

    /// Some particle reaches beyond a wall in this step.
    pub open spec fn any_bounce(self, delta: int, damping: int) -> bool {
        exists|i: int|
            0 <= i < self.dots.len() && (#[trigger] self.moved(i, delta, damping)).hits_edge(
                self.area,
                self.dot_size,
            )
    }

    /// The state after the given frames, the first of them first.
    pub open spec fn run(self, frames: Seq<Input>) -> World
        decreases frames.len(),
    {
        if frames.len() == 0 {
            self
        } else {
            let last = frames.last();
            self.run(frames.drop_last()).update(
                last.settings,
                last.screen,
                last.delta,
                last.damping,
            )
        }
    }

    /// What is drawn: the arena first, then every particle in spawn order,
    /// then every ring in spawn order.
    pub open spec fn drawing(self) -> Seq<Figure> {
        seq![Figure::Ground { rect: self.area }] + Seq::new(
            self.dots.len(),
            |i: int|
                Figure::Disc {
                    center: self.dots[i].position,
                    radius: self.dot_size,
                    color: self.dots[i].color,
                },
        ) + Seq::new(
            self.rings.len(),
            |i: int|
                Figure::Hoop {
                    center: self.rings[i].center,
                    radius: self.rings[i].radius,
                    width: self.ring_thickness,
                    color: self.rings[i].color,
                },
        )
    }

    /// The state in which a frame's physics step starts: the settings panel
    /// has been gone through and the arena has been cut out of the viewport.
    pub open spec fn placed(self, s: Settings, screen: Area) -> World {
        World { area: screen.arena(), ..self.settings_window(s) }
    }

    /// One frame: the settings panel, then the arena is cut out of the
    /// viewport, then, unless paused, one physics step.
    pub open spec fn update(self, s: Settings, screen: Area, delta: int, damping: int) -> World {
        let placed = self.placed(s, screen);
        if placed.paused {
            placed
        } else {
            placed.physics_update(delta, damping)
        }
    }
}

/// A coordinate on the pad, scaled by `span / width`, lies within the span.
pub proof fn lemma_scaled_within(p: int, span: int, width: int)
    requires
        0 <= p <= width,
        0 < width,
        0 <= span,
    ensures
        0 <= p * span / width <= span,
{
    assert(0 <= p * span <= width * span) by (nonlinear_arith)
        requires
            0 <= p <= width,
            0 <= span,
    ;
    vstd::arithmetic::div_mod::lemma_div_is_ordered(p * span, width * span, width);
    vstd::arithmetic::div_mod::lemma_div_is_ordered(0, p * span, width);
    assert(width * span == span * width + 0) by (nonlinear_arith);
    vstd::arithmetic::div_mod::lemma_fundamental_div_mod_converse(width * span, width, span, 0);
}

/// A physics step keeps a state well-formed: however often it runs, every
/// position and velocity stays a number within the stored range.
pub proof fn lemma_physics_update_wf(w: World, delta: int, damping: int)
    requires
        w.wf(),
    ensures
        w.physics_update(delta, damping).wf(),
        w.physics_update(delta, damping).dots.len() == w.dots.len(),
{
    let t = w.physics_update(delta, damping);
    assert forall|i: int| 0 <= i < t.dots.len() implies (#[trigger] t.dots[i]).wf() by {
        assert(w.dots[i].wf());
        lemma_collide_all_wf(w.dots[i], i, w.dots, w.dot_size, w.dots.len() as int);
        lemma_collide_rings_wf(
            w.dots[i].collide_all(i, w.dots, w.dot_size, w.dots.len() as int),
            w.rings,
            w.dot_size,
            w.ring_thickness,
            w.rings.len() as int,
        );
        lemma_bounce_wf(w.moved(i, delta, damping), w.area, w.dot_size);
    }
    assert forall|i: int| 0 <= i < t.rings.len() implies (#[trigger] t.rings[i]).wf() by {
        assert(w.rings[i].wf());
    }
}

/// The settings panel keeps a state well-formed.
pub proof fn lemma_settings_window_wf(w: World, s: Settings)
    requires
        w.wf(),
        s.valid(),
    ensures
        w.settings_window(s).wf(),
{
    let toggled = if s.toggle_pause {
        w.toggle_pause()
    } else {
        w
    };
    lemma_set_parameters_wf(w, s);
    lemma_set_parameters_wf(toggled, s);
    let tuned = toggled.set_parameters(s);
    let dotted = match s.dot_panel {
        Some(panel) => tuned.dot_panel(panel),
        None => tuned,
    };
    if let Some(panel) = s.dot_panel {
        let moved = tuned.move_control_dot(panel.drag@, panel.width as int);
        lemma_replace_wf(tuned, moved);
        let spawned = if panel.spawn {
            let dot = Particle {
                position: moved.control_point(panel.width as int),
                velocity: Vector { x: 0, y: 0 },
                color: moved.control_dot.color,
            };
            lemma_scaled_within(
                moved.control_dot.position.x,
                moved.area.width(),
                panel.width as int,
            );
            lemma_scaled_within(
                moved.control_dot.position.y,
                moved.area.width(),
                panel.width as int,
            );
            lemma_add_wf(moved, dot, moved.control_ring);
            moved.add_dot(dot)
        } else {
            moved
        };
        lemma_replace_wf(spawned, dotted);
    }
    if let Some(panel) = s.ring_panel {
        let radius = clamp(panel.radius as int, dotted.dot_size, dotted.ring_radius_max());
        let sized = World {
            control_ring: Obstacle { radius, ..dotted.control_ring },
            ..dotted
        };
        lemma_replace_wf(dotted, sized);
        let ring = Obstacle {
            center: sized.area.center(),
            radius,
            color: sized.control_ring.color,
        };
        let spawned = if panel.spawn {
            lemma_add_wf(sized, sized.control_dot, ring);
            sized.add_ring(ring)
        } else {
            sized
        };
        lemma_replace_wf(spawned, dotted.ring_panel(panel));
    }
}

/// A frame keeps a state well-formed.
pub proof fn lemma_update_wf(w: World, s: Settings, screen: Area, delta: int, damping: int)
    requires
        w.wf(),
        s.valid(),
        screen.within(VIEW_LIMIT as int),
        screen.ordered(),
    ensures
        w.placed(s, screen).wf(),
        w.update(s, screen, delta, damping).wf(),
{
    lemma_settings_window_wf(w, s);
    lemma_arena_shape(screen);
    lemma_replace_wf(w.settings_window(s), w.placed(s, screen));
    lemma_physics_update_wf(w.placed(s, screen), delta, damping);
}

/// Toggling the pause and setting the sliders keep a state well-formed.
pub proof fn lemma_set_parameters_wf(w: World, s: Settings)
    requires
        w.wf(),
    ensures
        w.toggle_pause().wf(),
        w.set_parameters(s).wf(),
{
    let t = w.set_parameters(s);
    assert forall|i: int| 0 <= i < t.dots.len() implies (#[trigger] t.dots[i]).wf() by {
        assert(w.dots[i].wf());
    }
    assert forall|i: int| 0 <= i < t.rings.len() implies (#[trigger] t.rings[i]).wf() by {
        assert(w.rings[i].wf());
    }
    let p = w.toggle_pause();
    assert forall|i: int| 0 <= i < p.dots.len() implies (#[trigger] p.dots[i]).wf() by {
        assert(w.dots[i].wf());
    }
    assert forall|i: int| 0 <= i < p.rings.len() implies (#[trigger] p.rings[i]).wf() by {
        assert(w.rings[i].wf());
    }
}

/// A well-formed particle or ring more keeps a state well-formed.
pub proof fn lemma_add_wf(w: World, dot: Particle, ring: Obstacle)
    requires
        w.wf(),
    ensures
        dot.wf() ==> w.add_dot(dot).wf(),
        ring.wf() ==> w.add_ring(ring).wf(),
{
    if dot.wf() {
        let t = w.add_dot(dot);
        assert forall|i: int| 0 <= i < t.dots.len() implies (#[trigger] t.dots[i]).wf() by {
            if i < w.dots.len() {
                assert(w.dots[i].wf());
            }
        }
        assert forall|i: int| 0 <= i < t.rings.len() implies (#[trigger] t.rings[i]).wf() by {
            assert(w.rings[i].wf());
        }
    }
    if ring.wf() {
        let t = w.add_ring(ring);
        assert forall|i: int| 0 <= i < t.dots.len() implies (#[trigger] t.dots[i]).wf() by {
            assert(w.dots[i].wf());
        }
        assert forall|i: int| 0 <= i < t.rings.len() implies (#[trigger] t.rings[i]).wf() by {
            if i < w.rings.len() {
                assert(w.rings[i].wf());
            }
        }
    }
}

/// A state stays well-formed when only its control particle or its control
/// ring is replaced by a well-formed one, or its arena by one within range.
pub proof fn lemma_replace_wf(w: World, t: World)
    requires
        w.wf(),
        t.control_dot.wf(),
        t.control_ring.wf(),
        t.area.within(VIEW_LIMIT as int),
        t.area.ordered(),
        t.area.width() == t.area.height(),
        t == (World { control_dot: t.control_dot, control_ring: t.control_ring, area: t.area, ..w }),
    ensures
        t.wf(),
{
    assert forall|i: int| 0 <= i < t.dots.len() implies (#[trigger] t.dots[i]).wf() by {
        assert(w.dots[i].wf());
    }
    assert forall|i: int| 0 <= i < t.rings.len() implies (#[trigger] t.rings[i]).wf() by {
        assert(w.rings[i].wf());
    }
}

} // verus!
