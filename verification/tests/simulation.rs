use particle_sandbox::ball::Ball;
use particle_sandbox::color::Color;
use particle_sandbox::dot::Dot;
use particle_sandbox::rect::Rect;
use particle_sandbox::ring::Ring;
use particle_sandbox::settings::{DotPanel, RingPanel, Settings};
use particle_sandbox::shape::Shape;
use particle_sandbox::simulation::{Frame, Simulation};
use particle_sandbox::vector::Vec2;

const ONE: i64 = 1_000_000;

/// What the panel reports when nothing is touched and both sections are closed.
fn idle(sim: &Simulation) -> Settings {
    Settings {
        toggle_pause: false,
        dot_size: sim.dot_size(),
        gravity: sim.gravity(),
        air_resistance: sim.air_resistance(),
        ring_thickness: sim.ring_thickness(),
        dot_panel: None,
        ring_panel: None,
    }
}

fn screen() -> Rect {
    Rect::new(Vec2::new(0, 0), Vec2::new(800 * ONE, 800 * ONE))
}

/// A simulation with the arena (20, 20) to (780, 780), still paused.
fn placed() -> Simulation {
    let mut sim = Simulation::default();
    let s = idle(&sim);
    sim.update(&s, &screen(), 16_000, ONE);
    sim
}

fn running() -> Simulation {
    let mut sim = placed();
    let mut s = idle(&sim);
    s.toggle_pause = true;
    sim.settings_window(&s);
    sim
}

#[test]
fn defaults() {
    let sim = Simulation::default();
    assert!(sim.is_paused());
    assert_eq!(sim.simulation_area(), Rect::zero());
    assert!(sim.dots().is_empty());
    assert!(sim.rings().is_empty());
    assert_eq!(sim.dot_size(), 15 * ONE);
    assert_eq!(sim.gravity(), 5 * ONE);
    assert_eq!(sim.air_resistance(), 50_000);
    assert_eq!(sim.ring_thickness(), 5 * ONE);
    assert_eq!(
        sim.control_dot(),
        Dot::new(Vec2::new(110 * ONE, 110 * ONE), Vec2::new(0, 0), Color::white())
    );
    assert_eq!(sim.control_ring(), Ring::new(Vec2::new(0, 0), 100 * ONE, Color::white()));
}

#[test]
fn default_records() {
    assert_eq!(Dot::default(), Dot::new(Vec2::new(0, 0), Vec2::new(0, 0), Color::white()));
    assert_eq!(Ring::default(), Ring::new(Vec2::new(0, 0), 100 * ONE, Color::white()));
    assert_eq!(Ball::default(), Ball::new(Vec2::new(840 * ONE, 0), Vec2::new(0, 0), Color::white()));
    assert_eq!(Color::white(), Color::new(255, 255, 255, 255));
    let ball = Ball::new(Vec2::new(1, 2), Vec2::new(3, 4), Color::new(5, 6, 7, 8));
    assert_eq!(ball.position, Vec2::new(1, 2));
    assert_eq!(ball.velocity, Vec2::new(3, 4));
    assert_eq!(ball.color, Color::new(5, 6, 7, 8));
}

#[test]
fn update_cuts_the_arena_out_of_the_viewport() {
    let sim = placed();
    assert_eq!(
        sim.simulation_area(),
        Rect::new(Vec2::new(20 * ONE, 20 * ONE), Vec2::new(780 * ONE, 780 * ONE))
    );
}

#[test]
fn spawn_returns_handles_in_order() {
    let mut sim = placed();
    assert_eq!(sim.spawn_dot(Vec2::new(100 * ONE, 100 * ONE), Color::new(1, 2, 3, 4)), 0);
    assert_eq!(sim.spawn_dot(Vec2::new(200 * ONE, 100 * ONE), Color::white()), 1);
    assert_eq!(sim.spawn_ring(Vec2::new(400 * ONE, 400 * ONE), 50 * ONE, Color::white()), 0);
    assert_eq!(
        sim.dots()[0],
        Dot::new(Vec2::new(100 * ONE, 100 * ONE), Vec2::new(0, 0), Color::new(1, 2, 3, 4))
    );
    assert_eq!(sim.dots().len(), 2);
    assert_eq!(sim.rings().len(), 1);
}

#[test]
fn spawn_leaves_existing_entities_unchanged() {
    let mut sim = placed();
    let a = Dot::new(Vec2::new(100 * ONE, 100 * ONE), Vec2::new(3, -4), Color::new(1, 2, 3, 4));
    let b = Dot::new(Vec2::new(300 * ONE, 200 * ONE), Vec2::new(-5, 6), Color::new(9, 8, 7, 6));
    let ring = Ring::new(Vec2::new(400 * ONE, 400 * ONE), 70 * ONE, Color::new(0, 0, 0, 1));
    sim.add_dot(a);
    sim.add_dot(b);
    sim.add_ring(ring);
    let dots_before = sim.dots().clone();
    let rings_before = sim.rings().clone();
    sim.spawn_dot(Vec2::new(1, 1), Color::white());
    assert_eq!(&sim.dots()[..2], &dots_before[..]);
    assert_eq!(sim.rings(), &rings_before);
    sim.spawn_ring(Vec2::new(2, 2), 30 * ONE, Color::white());
    assert_eq!(&sim.dots()[..2], &dots_before[..]);
    assert_eq!(&sim.rings()[..1], &rings_before[..]);
    assert_eq!(sim.dots().len(), 3);
    assert_eq!(sim.rings().len(), 2);
}

#[test]
fn paused_frames_change_no_particle() {
    let mut sim = placed();
    sim.add_dot(Dot::new(Vec2::new(100 * ONE, 100 * ONE), Vec2::new(3 * ONE, -4 * ONE), Color::white()));
    sim.add_dot(Dot::new(Vec2::new(110 * ONE, 100 * ONE), Vec2::new(0, 0), Color::white()));
    sim.add_ring(Ring::new(Vec2::new(100 * ONE, 100 * ONE), 20 * ONE, Color::white()));
    let dots_before = sim.dots().clone();
    let rings_before = sim.rings().clone();
    for _ in 0..25 {
        let s = idle(&sim);
        let frame = sim.update(&s, &screen(), 16_000, 999_000);
        assert_eq!(frame, Frame { repaint: false, bounced: false });
    }
    assert!(sim.is_paused());
    assert_eq!(sim.dots(), &dots_before);
    assert_eq!(sim.rings(), &rings_before);
}

#[test]
fn pause_button_toggles() {
    let mut sim = placed();
    let mut s = idle(&sim);
    s.toggle_pause = true;
    sim.settings_window(&s);
    assert!(!sim.is_paused());
    sim.settings_window(&s);
    assert!(sim.is_paused());
    s.toggle_pause = false;
    sim.settings_window(&s);
    assert!(sim.is_paused());
}

#[test]
fn running_frame_asks_for_repaint() {
    let mut sim = running();
    let s = idle(&sim);
    let frame = sim.update(&s, &screen(), 16_000, ONE);
    assert_eq!(frame, Frame { repaint: true, bounced: false });
}

#[test]
fn integration_scenario() {
    let mut sim = running();
    let r = sim.dot_size();
    let max_y = sim.simulation_area().max.y;
    sim.add_dot(Dot::new(Vec2::new(100 * ONE, max_y - r / 2), Vec2::new(0, 5 * ONE), Color::white()));
    let mut s = idle(&sim);
    s.gravity = 5 * ONE;
    s.air_resistance = 0;
    let frame = sim.update(&s, &screen(), 100_000, ONE);
    assert_eq!(frame, Frame { repaint: true, bounced: true });
    assert_eq!(sim.dots()[0].velocity, Vec2::new(0, -5_500_000));
    assert_eq!(sim.dots()[0].position, Vec2::new(100 * ONE, max_y - r));
}

#[test]
fn bottom_wall_is_elastic_for_any_elapsed_time() {
    for delta in [1, 16_000, 100_000, 1_000_000, 30_000_000] {
        let mut sim = running();
        let r = sim.dot_size();
        let max_y = sim.simulation_area().max.y;
        sim.add_dot(Dot::new(Vec2::new(400 * ONE, max_y - r), Vec2::new(ONE, 2 * ONE), Color::white()));
        sim.physics_update(delta, ONE);
        let fallen = 2 * ONE + 5 * delta;
        assert_eq!(sim.dots()[0].velocity, Vec2::new(ONE, -fallen));
        assert_eq!(sim.dots()[0].position, Vec2::new(401 * ONE, max_y - r));
    }
}

#[test]
fn physics_step_reflects_both_members_of_a_pair() {
    let mut sim = running();
    sim.add_dot(Dot::new(Vec2::new(100 * ONE, 100 * ONE), Vec2::new(2 * ONE, ONE), Color::white()));
    sim.add_dot(Dot::new(Vec2::new(120 * ONE, 100 * ONE), Vec2::new(-3 * ONE, 0), Color::white()));
    let bounced = sim.physics_update(0, ONE);
    assert!(!bounced);
    assert_eq!(sim.dots()[0].velocity, Vec2::new(-2 * ONE, ONE));
    assert_eq!(sim.dots()[0].position, Vec2::new(98 * ONE, 101 * ONE));
    assert_eq!(sim.dots()[1].velocity, Vec2::new(3 * ONE, 0));
    assert_eq!(sim.dots()[1].position, Vec2::new(123 * ONE, 100 * ONE));
}

#[test]
fn physics_step_uses_positions_from_before_the_step() {
    // The first particle moves out of the second one's band during the step;
    // the second must still answer it where it stood.
    let mut sim = running();
    sim.add_dot(Dot::new(Vec2::new(100 * ONE, 100 * ONE), Vec2::new(40 * ONE, 0), Color::white()));
    sim.add_dot(Dot::new(Vec2::new(120 * ONE, 100 * ONE), Vec2::new(ONE, 0), Color::white()));
    sim.physics_update(0, ONE);
    assert_eq!(sim.dots()[0].velocity, Vec2::new(-40 * ONE, 0));
    assert_eq!(sim.dots()[1].velocity, Vec2::new(-ONE, 0));
}

#[test]
fn equal_particles_apart_still_collide() {
    // Same velocity and colour, different places: told apart by index, not by value.
    let mut sim = running();
    sim.add_dot(Dot::new(Vec2::new(100 * ONE, 100 * ONE), Vec2::new(ONE, 0), Color::white()));
    sim.add_dot(Dot::new(Vec2::new(100 * ONE, 120 * ONE), Vec2::new(ONE, 0), Color::white()));
    sim.add_dot(Dot::new(Vec2::new(100 * ONE, 100 * ONE), Vec2::new(ONE, 0), Color::white()));
    sim.physics_update(0, ONE);
    // 0 and 2 coincide and ignore each other; each answers particle 1 once: (1, 0) about (0, -20) stays (1, 0).
    assert_eq!(sim.dots()[0].velocity, Vec2::new(ONE, 0));
    assert_eq!(sim.dots()[2].velocity, Vec2::new(ONE, 0));
    // particle 1 answers both: two reflections about a vertical direction.
    assert_eq!(sim.dots()[1].velocity, Vec2::new(ONE, 0));
}

#[test]
fn coincident_particles_stay_finite_through_many_steps() {
    let mut sim = running();
    sim.spawn_dot(Vec2::new(400 * ONE, 400 * ONE), Color::white());
    sim.spawn_dot(Vec2::new(400 * ONE, 400 * ONE), Color::white());
    let limit = particle_sandbox::fixed::LIMIT;
    for _ in 0..500 {
        sim.physics_update(16_000, 999_000);
        assert_eq!(sim.dots()[0], sim.dots()[1]);
        for dot in sim.dots() {
            assert!(dot.position.x.abs() <= limit && dot.position.y.abs() <= limit);
            assert!(dot.velocity.x.abs() <= limit && dot.velocity.y.abs() <= limit);
        }
    }
}

#[test]
fn physics_step_resolves_ring_before_moving() {
    let mut sim = running();
    sim.add_ring(Ring::new(Vec2::new(400 * ONE, 400 * ONE), 100 * ONE, Color::white()));
    sim.add_dot(Dot::new(Vec2::new(500 * ONE, 400 * ONE), Vec2::new(-2 * ONE, ONE), Color::white()));
    sim.physics_update(0, ONE);
    // set onto the inner circle at (485, 400), velocity mirrored to (2, 1), then moved by it.
    assert_eq!(sim.dots()[0].velocity, Vec2::new(2 * ONE, ONE));
    assert_eq!(sim.dots()[0].position, Vec2::new(487 * ONE, 401 * ONE));
}

#[test]
fn advance_agrees_with_physics_update() {
    let mut sim = running();
    sim.add_ring(Ring::new(Vec2::new(400 * ONE, 400 * ONE), 100 * ONE, Color::white()));
    sim.add_dot(Dot::new(Vec2::new(500 * ONE, 400 * ONE), Vec2::new(-2 * ONE, ONE), Color::white()));
    sim.add_dot(Dot::new(Vec2::new(510 * ONE, 410 * ONE), Vec2::new(ONE, ONE), Color::white()));
    sim.add_dot(Dot::new(Vec2::new(30 * ONE, 30 * ONE), Vec2::new(-ONE, -ONE), Color::white()));
    let expected: Vec<(Dot, bool)> = (0..3).map(|i| sim.advance(i, 16_000, 990_000)).collect();
    let bounced = sim.physics_update(16_000, 990_000);
    for i in 0..3 {
        assert_eq!(sim.dots()[i], expected[i].0);
    }
    assert_eq!(bounced, expected.iter().any(|e| e.1));
    assert!(bounced);
}

#[test]
fn sliders_are_brought_into_range() {
    let mut sim = Simulation::default();
    let mut s = idle(&sim);
    s.dot_size = 0;
    s.gravity = 11 * ONE;
    s.air_resistance = -1;
    s.ring_thickness = 26 * ONE;
    sim.settings_window(&s);
    assert_eq!(sim.dot_size(), ONE);
    assert_eq!(sim.gravity(), 10 * ONE);
    assert_eq!(sim.air_resistance(), 0);
    assert_eq!(sim.ring_thickness(), 25 * ONE);
    s.dot_size = 26 * ONE;
    s.gravity = 0;
    s.air_resistance = 2 * ONE;
    s.ring_thickness = 0;
    sim.settings_window(&s);
    assert_eq!(sim.dot_size(), 25 * ONE);
    assert_eq!(sim.gravity(), ONE);
    assert_eq!(sim.air_resistance(), ONE);
    assert_eq!(sim.ring_thickness(), 5 * ONE);
    s.dot_size = 7 * ONE;
    s.gravity = 3 * ONE;
    s.air_resistance = 250_000;
    s.ring_thickness = 12 * ONE;
    sim.settings_window(&s);
    assert_eq!(sim.dot_size(), 7 * ONE);
    assert_eq!(sim.gravity(), 3 * ONE);
    assert_eq!(sim.air_resistance(), 250_000);
    assert_eq!(sim.ring_thickness(), 12 * ONE);
}

#[test]
fn control_dot_follows_drag_and_stays_on_pad() {
    let mut sim = Simulation::default();
    assert_eq!(sim.move_control_dot(Vec2::new(10 * ONE, -20 * ONE), 200 * ONE), 200 * ONE);
    assert_eq!(sim.control_dot().position, Vec2::new(120 * ONE, 90 * ONE));
    sim.move_control_dot(Vec2::new(500 * ONE, -500 * ONE), 200 * ONE);
    assert_eq!(sim.control_dot().position, Vec2::new(200 * ONE, 0));
    sim.move_control_dot(Vec2::new(0, 0), 50 * ONE);
    assert_eq!(sim.control_dot().position, Vec2::new(50 * ONE, 0));
    sim.move_control_dot(Vec2::new(0, 0), 0);
    assert_eq!(sim.control_dot().position, Vec2::new(0, 0));
}

#[test]
fn dot_panel_spawns_at_the_scaled_control_point() {
    let mut sim = placed();
    let mut s = idle(&sim);
    s.dot_panel = Some(DotPanel {
        width: 200 * ONE,
        drag: Vec2::new(-10 * ONE, 40 * ONE),
        spawn: true,
        color: Color::new(200, 100, 50, 255),
    });
    sim.settings_window(&s);
    // control point (100, 150) on a pad of 200, arena of side 760 from (20, 20).
    assert_eq!(sim.control_dot().position, Vec2::new(100 * ONE, 150 * ONE));
    assert_eq!(sim.dots().len(), 1);
    assert_eq!(
        sim.dots()[0],
        Dot::new(Vec2::new(400 * ONE, 590 * ONE), Vec2::new(0, 0), Color::white())
    );
    // the colour picked in this frame is used from the next spawn on.
    assert_eq!(sim.control_dot().color, Color::new(200, 100, 50, 255));
    s.dot_panel = Some(DotPanel {
        width: 200 * ONE,
        drag: Vec2::new(0, 0),
        spawn: true,
        color: Color::new(200, 100, 50, 255),
    });
    sim.settings_window(&s);
    assert_eq!(sim.dots()[1].color, Color::new(200, 100, 50, 255));
    assert_eq!(sim.dots()[0].color, Color::white());
}

#[test]
fn dot_panel_scaling_rounds_down() {
    let mut sim = placed();
    let mut s = idle(&sim);
    s.dot_panel = Some(DotPanel {
        width: 3,
        drag: Vec2::new(-200 * ONE, -200 * ONE),
        spawn: false,
        color: Color::white(),
    });
    sim.settings_window(&s);
    assert_eq!(sim.control_dot().position, Vec2::new(0, 0));
    assert!(sim.dots().is_empty());
    s.dot_panel =
        Some(DotPanel { width: 3, drag: Vec2::new(1, 2), spawn: true, color: Color::white() });
    sim.settings_window(&s);
    // 1 * 760e6 / 3 = 253_333_333.3, 2 * 760e6 / 3 = 506_666_666.6
    assert_eq!(sim.dots()[0].position, Vec2::new(20 * ONE + 253_333_333, 20 * ONE + 506_666_666));
}

#[test]
fn ring_panel_clamps_radius_and_spawns_at_arena_centre() {
    let mut sim = placed();
    let mut s = idle(&sim);
    s.ring_panel =
        Some(RingPanel { radius: 500 * ONE, spawn: true, color: Color::new(1, 1, 1, 1) });
    sim.settings_window(&s);
    // greatest radius: floor(760e6 * 10 / 21)
    assert_eq!(sim.control_ring().radius, 361_904_761);
    assert_eq!(sim.rings().len(), 1);
    assert_eq!(
        sim.rings()[0],
        Ring::new(Vec2::new(400 * ONE, 400 * ONE), 361_904_761, Color::white())
    );
    assert_eq!(sim.control_ring().color, Color::new(1, 1, 1, 1));
    s.ring_panel = Some(RingPanel { radius: 0, spawn: false, color: Color::new(1, 1, 1, 1) });
    sim.settings_window(&s);
    assert_eq!(sim.control_ring().radius, 15 * ONE);
    assert_eq!(sim.rings().len(), 1);
}

#[test]
fn ring_radius_is_pinned_to_particle_radius_in_an_empty_arena() {
    let mut sim = Simulation::default();
    let mut s = idle(&sim);
    s.ring_panel = Some(RingPanel { radius: 100 * ONE, spawn: false, color: Color::white() });
    sim.settings_window(&s);
    assert_eq!(sim.ring_radius_max(), 15 * ONE);
    assert_eq!(sim.control_ring().radius, 15 * ONE);
}

#[test]
fn ring_radius_range_follows_the_particle_slider_of_the_same_frame() {
    let mut sim = placed();
    let mut s = idle(&sim);
    s.dot_size = 20 * ONE;
    s.ring_panel = Some(RingPanel { radius: 0, spawn: true, color: Color::white() });
    sim.settings_window(&s);
    assert_eq!(sim.rings()[0].radius, 20 * ONE);
}

#[test]
fn settings_use_the_arena_of_the_frame_before() {
    let mut sim = Simulation::default();
    let mut s = idle(&sim);
    s.dot_panel = Some(DotPanel {
        width: 220 * ONE,
        drag: Vec2::new(0, 0),
        spawn: true,
        color: Color::white(),
    });
    // First frame: the arena is still empty while the panel is gone through.
    sim.update(&s, &screen(), 16_000, ONE);
    assert_eq!(sim.dots()[0].position, Vec2::new(0, 0));
    sim.update(&s, &screen(), 16_000, ONE);
    assert_eq!(sim.dots()[1].position, Vec2::new(400 * ONE, 400 * ONE));
}

#[test]
fn draw_update_lists_arena_particles_rings() {
    let mut sim = placed();
    sim.add_dot(Dot::new(Vec2::new(100 * ONE, 110 * ONE), Vec2::new(1, 2), Color::new(1, 2, 3, 4)));
    sim.add_dot(Dot::new(Vec2::new(200 * ONE, 210 * ONE), Vec2::new(3, 4), Color::new(5, 6, 7, 8)));
    sim.add_ring(Ring::new(Vec2::new(400 * ONE, 400 * ONE), 70 * ONE, Color::new(9, 9, 9, 9)));
    let shapes = sim.draw_update();
    assert_eq!(
        shapes,
        vec![
            Shape::RectFilled { rect: sim.simulation_area() },
            Shape::CircleFilled {
                center: Vec2::new(100 * ONE, 110 * ONE),
                radius: 15 * ONE,
                color: Color::new(1, 2, 3, 4)
            },
            Shape::CircleFilled {
                center: Vec2::new(200 * ONE, 210 * ONE),
                radius: 15 * ONE,
                color: Color::new(5, 6, 7, 8)
            },
            Shape::CircleStroke {
                center: Vec2::new(400 * ONE, 400 * ONE),
                radius: 70 * ONE,
                width: 5 * ONE,
                color: Color::new(9, 9, 9, 9)
            },
        ]
    );
}

#[test]
fn draw_update_of_empty_simulation_is_the_arena_alone() {
    let sim = Simulation::default();
    assert_eq!(sim.draw_update(), vec![Shape::RectFilled { rect: Rect::zero() }]);
}
