use particle_sandbox::color::Color;
use particle_sandbox::dot::Dot;
use particle_sandbox::rect::Rect;
use particle_sandbox::ring::Ring;
use particle_sandbox::vector::Vec2;

const PX: i64 = 1_000_000;

fn dot_at(x: i64, y: i64, vx: i64, vy: i64) -> Dot {
    Dot::new(Vec2::new(x, y), Vec2::new(vx, vy), Color::new(10, 20, 30, 255))
}

fn arena() -> Rect {
    Rect::new(Vec2::new(20 * PX, 20 * PX), Vec2::new(780 * PX, 780 * PX))
}

#[test]
fn reflect_about_vertical_direction_is_exact() {
    let v = Vec2::new(3 * PX, 7 * PX);
    assert_eq!(v.reflect(Vec2::new(0, 12_345)), Vec2::new(3 * PX, -7 * PX));
    assert_eq!(v.reflect(Vec2::new(0, -5)), Vec2::new(3 * PX, -7 * PX));
}

#[test]
fn reflect_about_horizontal_direction_is_exact() {
    let v = Vec2::new(3 * PX, 7 * PX);
    assert_eq!(v.reflect(Vec2::new(-9, 0)), Vec2::new(-3 * PX, 7 * PX));
}

#[test]
fn reflect_about_diagonal() {
    assert_eq!(Vec2::new(3 * PX, 0).reflect(Vec2::new(PX, PX)), Vec2::new(0, -3 * PX));
    assert_eq!(
        Vec2::new(5 * PX, 0).reflect(Vec2::new(60 * PX, 80 * PX)),
        Vec2::new(1_400_000, -4_800_000)
    );
}

#[test]
fn reflect_rounds_quotients_down() {
    assert_eq!(Vec2::new(1, 0).reflect(Vec2::new(1, 2)), Vec2::new(1, 0));
    assert_eq!(Vec2::new(-1, 0).reflect(Vec2::new(1, 2)), Vec2::new(0, 1));
    assert_eq!(Vec2::new(7, -3).reflect(Vec2::new(3, 4)), Vec2::new(5, -5));
    assert_eq!(
        Vec2::new(1_234_567, -7_654_321).reflect(Vec2::new(-70 * PX, 30 * PX)),
        Vec2::new(-6_394_209, -4_384_845)
    );
}

#[test]
fn reflect_negates_normal_component_within_tolerance() {
    let v = Vec2::new(1_234_567, -7_654_321);
    let d = Vec2::new(-70 * PX, 30 * PX);
    let m = v.reflect(d);
    let sum = m.dot(d) + v.dot(d);
    assert!(sum.abs() < (d.x.abs() + d.y.abs()) as i128);
}

#[test]
fn reflect_saturates_at_the_limit() {
    let limit = particle_sandbox::fixed::LIMIT;
    // (L, L) mirrored about (1, 2) is (-L/5, -7L/5): the second component is confined.
    let m = Vec2::new(limit, limit).reflect(Vec2::new(1, 2));
    assert_eq!(m, Vec2::new(-limit / 5, -limit));
}

#[test]
fn dot_and_norm() {
    let a = Vec2::new(3, -4);
    let b = Vec2::new(-2, 5);
    assert_eq!(a.dot(b), -26);
    assert_eq!(a.norm_sq(), 25);
    assert_eq!(a.plus(b), Vec2::new(1, 1));
    assert_eq!(a.minus(b), Vec2::new(5, -9));
    assert_eq!(Vec2::zero(), Vec2::new(0, 0));
}

#[test]
fn pair_band_edges() {
    let r = 15 * PX;
    let p = dot_at(0, 0, 0, 0);
    assert!(p.touches(Vec2::new(30 * PX, 0), r));
    assert!(!p.touches(Vec2::new(30 * PX + 1, 0), r));
    assert!(p.touches(Vec2::new(7_500_000, 0), r));
    assert!(!p.touches(Vec2::new(7_499_999, 0), r));
    assert!(p.touches(Vec2::new(0, -20 * PX), r));
    assert!(!p.touches(Vec2::new(0, 0), r));
}

#[test]
fn pair_reflects_each_member() {
    let r = 15 * PX;
    let a = dot_at(100 * PX, 100 * PX, 2 * PX, PX);
    let b = dot_at(120 * PX, 100 * PX, -3 * PX, 0);
    let a2 = a.collide(b.position, r);
    let b2 = b.collide(a.position, r);
    assert_eq!(a2, dot_at(100 * PX, 100 * PX, -2 * PX, PX));
    assert_eq!(b2, dot_at(120 * PX, 100 * PX, 3 * PX, 0));
}

#[test]
fn pair_out_of_band_is_untouched() {
    let r = 15 * PX;
    let a = dot_at(100 * PX, 100 * PX, 2 * PX, PX);
    assert_eq!(a.collide(Vec2::new(200 * PX, 100 * PX), r), a);
    assert_eq!(a.collide(Vec2::new(101 * PX, 100 * PX), r), a);
}

#[test]
fn coincident_particles_are_untouched() {
    let a = dot_at(100 * PX, 100 * PX, 2 * PX, PX);
    assert_eq!(a.collide(a.position, 15 * PX), a);
    assert_eq!(a.collide(a.position, 1), a);
}

#[test]
fn ring_capture_on_axis() {
    let ring = Ring::new(Vec2::new(400 * PX, 400 * PX), 100 * PX, Color::white());
    let p = dot_at(500 * PX, 400 * PX, -2 * PX, PX);
    let q = p.collide_ring(&ring, 15 * PX, 5 * PX);
    assert_eq!(q, dot_at(485 * PX, 400 * PX, 2 * PX, PX));
}

#[test]
fn ring_capture_on_exact_diagonal() {
    let ring = Ring::new(Vec2::new(400 * PX, 400 * PX), 100 * PX, Color::white());
    let p = dot_at(460 * PX, 480 * PX, 5 * PX, 0);
    let q = p.collide_ring(&ring, 15 * PX, 5 * PX);
    assert_eq!(q, dot_at(451 * PX, 468 * PX, 1_400_000, -4_800_000));
}

#[test]
fn ring_capture_rounds_outward() {
    let ring = Ring::new(Vec2::new(400 * PX, 400 * PX), 100 * PX, Color::white());
    let p = dot_at(470 * PX, 470 * PX, PX, -2 * PX);
    let q = p.collide_ring(&ring, 15 * PX, 5 * PX);
    assert_eq!(q.position, Vec2::new(400 * PX + 60_104_077, 400 * PX + 60_104_077));
    assert_eq!(q.velocity, Vec2::new(2 * PX, -PX));
    let inner: i128 = 85_000_000;
    let dist_sq = q.position.minus(ring.center).norm_sq();
    assert!(inner * inner <= dist_sq);
    assert!(dist_sq < (inner + 3) * (inner + 3));
}

#[test]
fn ring_capture_in_another_quadrant() {
    let ring = Ring::new(Vec2::new(0, 0), 90 * PX, Color::white());
    let p = dot_at(-70 * PX, 30 * PX, 1_234_567, -7_654_321);
    let q = p.collide_ring(&ring, 15 * PX, 5 * PX);
    assert_eq!(q.position, Vec2::new(-68_935_878, 29_543_948));
    assert_eq!(q.velocity, Vec2::new(-6_394_209, -4_384_845));
}

#[test]
fn ring_outer_edge_reflects_without_moving() {
    let ring = Ring::new(Vec2::new(400 * PX, 400 * PX), 100 * PX, Color::white());
    let p = dot_at(520 * PX, 400 * PX, -2 * PX, PX);
    let q = p.collide_ring(&ring, 15 * PX, 5 * PX);
    assert_eq!(q, dot_at(520 * PX, 400 * PX, 2 * PX, PX));
}

#[test]
fn ring_inner_edge_is_in_band() {
    let ring = Ring::new(Vec2::new(400 * PX, 400 * PX), 100 * PX, Color::white());
    let p = dot_at(400 * PX, 315 * PX, PX, 3 * PX);
    let q = p.collide_ring(&ring, 15 * PX, 5 * PX);
    assert_eq!(q, dot_at(400 * PX, 315 * PX, PX, -3 * PX));
}

#[test]
fn ring_out_of_band_is_untouched() {
    let ring = Ring::new(Vec2::new(400 * PX, 400 * PX), 100 * PX, Color::white());
    let outside = dot_at(520 * PX + 1, 400 * PX, -2 * PX, PX);
    assert_eq!(outside.collide_ring(&ring, 15 * PX, 5 * PX), outside);
    let inside = dot_at(400 * PX, 315 * PX + 1, -2 * PX, PX);
    assert_eq!(inside.collide_ring(&ring, 15 * PX, 5 * PX), inside);
}

#[test]
fn particle_on_ring_centre_is_untouched() {
    // A ring as small as the particle has inner radius zero; the centre is in
    // its band by distance, but there is no direction to reflect about.
    let ring = Ring::new(Vec2::new(400 * PX, 400 * PX), 15 * PX, Color::white());
    let p = dot_at(400 * PX, 400 * PX, -2 * PX, PX);
    assert_eq!(p.collide_ring(&ring, 15 * PX, 5 * PX), p);
}

#[test]
fn integrate_applies_gravity_then_moves_by_raw_velocity() {
    let p = dot_at(100 * PX, 100 * PX, 2 * PX, 5 * PX);
    let q = p.integrate(5 * PX, 100_000, PX);
    assert_eq!(q.velocity, Vec2::new(2 * PX, 5_500_000));
    assert_eq!(q.position, Vec2::new(102 * PX, 105_500_000));
    assert_eq!(q.color, p.color);
}

#[test]
fn integrate_damps_after_gravity() {
    let p = dot_at(0, 0, 2 * PX, 5 * PX);
    let q = p.integrate(5 * PX, 100_000, 900_000);
    assert_eq!(q.velocity, Vec2::new(1_800_000, 4_950_000));
    assert_eq!(q.position, Vec2::new(1_800_000, 4_950_000));
}

#[test]
fn integrate_rounds_down() {
    let p = dot_at(0, 0, -1, 1);
    let q = p.integrate(1, 1, 999_999);
    // gravity adds floor(1 / 1e6) = 0; damping gives floor(-0.999999) and floor(0.999999).
    assert_eq!(q.velocity, Vec2::new(-1, 0));
}

#[test]
fn integrate_with_total_damping_stops() {
    let p = dot_at(7, 9, 2 * PX, 5 * PX);
    let q = p.integrate(5 * PX, 100_000, 0);
    assert_eq!(q.velocity, Vec2::new(0, 0));
    assert_eq!(q.position, Vec2::new(7, 9));
}

#[test]
fn bounce_bottom() {
    let r = 15 * PX;
    let p = dot_at(100 * PX, 770 * PX, PX, 4 * PX);
    assert!(p.hits_edge(&arena(), r));
    assert_eq!(p.bounce(&arena(), r), dot_at(100 * PX, 765 * PX, PX, -4 * PX));
}

#[test]
fn bounce_top() {
    let r = 15 * PX;
    let p = dot_at(100 * PX, 30 * PX, PX, -4 * PX);
    assert_eq!(p.bounce(&arena(), r), dot_at(100 * PX, 35 * PX, PX, 4 * PX));
}

#[test]
fn bounce_left_and_right() {
    let r = 15 * PX;
    let left = dot_at(30 * PX, 100 * PX, -PX, 4 * PX);
    assert_eq!(left.bounce(&arena(), r), dot_at(35 * PX, 100 * PX, PX, 4 * PX));
    let right = dot_at(770 * PX, 100 * PX, PX, 4 * PX);
    assert_eq!(right.bounce(&arena(), r), dot_at(765 * PX, 100 * PX, -PX, 4 * PX));
}

#[test]
fn bounce_corner_turns_both_axes() {
    let r = 15 * PX;
    let p = dot_at(779 * PX, 779 * PX, PX, 4 * PX);
    assert_eq!(p.bounce(&arena(), r), dot_at(765 * PX, 765 * PX, -PX, -4 * PX));
}

#[test]
fn bounce_touching_wall_is_untouched() {
    let r = 15 * PX;
    let p = dot_at(765 * PX, 35 * PX, PX, 4 * PX);
    assert!(!p.hits_edge(&arena(), r));
    assert_eq!(p.bounce(&arena(), r), p);
}

#[test]
fn bounce_in_arena_narrower_than_particle_prefers_bottom_and_left() {
    let r = 15 * PX;
    let narrow = Rect::new(Vec2::new(0, 0), Vec2::new(10 * PX, 10 * PX));
    let p = dot_at(5 * PX, 5 * PX, PX, 4 * PX);
    assert_eq!(p.bounce(&narrow, r), dot_at(15 * PX, -5 * PX, -PX, -4 * PX));
}

#[test]
fn integration_scenario_on_one_particle() {
    let r = 15 * PX;
    let p = Dot::new(
        Vec2::new(100 * PX, 780 * PX - r / 2),
        Vec2::new(0, 5 * PX),
        Color::white(),
    );
    let moved = p.integrate(5 * PX, 100_000, PX);
    assert_eq!(moved.velocity.y, 5_500_000);
    assert!(moved.position.y > 780 * PX - r);
    let out = moved.bounce(&arena(), r);
    assert_eq!(out.position, Vec2::new(100 * PX, 780 * PX - r));
    assert_eq!(out.velocity, Vec2::new(0, -5_500_000));
}
