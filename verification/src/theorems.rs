//! What holds of the simulation as a whole, stated over its model and proved.

use vstd::prelude::*;
use crate::dot::Particle;
use crate::collision::lemma_component_below_root;
use crate::fixed::{div_away, is_sqrt_floor, lemma_sqrt_floor_exists, sqrt_floor, VIEW_LIMIT};
use crate::ring::Obstacle;
use crate::settings::Settings;
use crate::vector::Vector;
use crate::world::{lemma_update_wf, Input, World};

verus! {

/// The bottom wall is perfectly elastic. A particle that the integrator has
/// carried beyond the bottom wall ends the step touching that wall from
/// inside, with the sign of its vertical velocity changed, whatever the
/// elapsed time.
pub proof fn bottom_wall_is_elastic(w: World, i: int, delta: int, damping: int)
    requires
        0 <= i < w.dots.len(),
        w.moved(i, delta, damping).position.y + w.dot_size > w.area.max.y,
    ensures
        w.physics_update(delta, damping).dots[i].position.y == w.area.max.y - w.dot_size,
        w.physics_update(delta, damping).dots[i].velocity.y == -w.moved(
            i,
            delta,
            damping,
        ).velocity.y,
{
}

/// A ring reflects what it catches. A particle within the band of a ring has
/// its velocity reflected about the direction from the ring's centre to the
/// particle, and keeps its colour.
pub proof fn ring_reflects_caught_particle(p: Particle, ring: Obstacle, r: int, t: int)
    requires
        p.in_band(ring, r, t),
    ensures
        p.collide_ring(ring, r, t).velocity == p.velocity.reflect(p.position.minus(ring.center)),
        p.collide_ring(ring, r, t).color == p.color,
        !p.penetrates(ring, r, t) ==> p.collide_ring(ring, r, t).position == p.position,
{
}

/// Two particles within each other's band are both reflected. In a world of
/// two such particles, the first leaves the particle phase with its velocity
/// reflected about the direction from the second to it, and the second with
/// its velocity reflected about the opposite direction; neither moves.
pub proof fn pair_reflects_both(w: World)
    requires
        w.dots.len() == 2,
        w.dots[0].touches(w.dots[1].position, w.dot_size),
    ensures
        w.dots[1].touches(w.dots[0].position, w.dot_size),
        w.dots[0].collide_all(0, w.dots, w.dot_size, 2) == w.dots[0].with_velocity(
            w.dots[0].velocity.reflect(w.dots[0].position.minus(w.dots[1].position)),
        ),
        w.dots[1].collide_all(1, w.dots, w.dot_size, 2) == w.dots[1].with_velocity(
            w.dots[1].velocity.reflect(w.dots[1].position.minus(w.dots[0].position)),
        ),
        w.rings.len() == 0 ==> w.jostled(0) == w.dots[0].collide_all(0, w.dots, w.dot_size, 2)
            && w.jostled(1) == w.dots[1].collide_all(1, w.dots, w.dot_size, 2),
{
    let a = w.dots[0];
    let b = w.dots[1];
    let r = w.dot_size;
    assert(a.position.minus(b.position).norm_sq() == b.position.minus(a.position).norm_sq())
        by (nonlinear_arith);
    reveal_with_fuel(Particle::collide_all, 3);
}

/// The magnitude of an integer.
pub open spec fn abs(v: int) -> int {
    if v < 0 {
        -v
    } else {
        v
    }
}

/// Reflection negates the normal component. The component of the mirrored
/// velocity along `d` is the negative of what it was, up to the rounding of
/// the two quotients: the sum of the old and the new scalar product with `d`
/// is smaller in magnitude than `|d.x| + |d.y|`.
pub proof fn mirror_negates_normal_component(v: Vector, d: Vector)
    requires
        d.norm_sq() > 0,
    ensures
        abs(v.mirror(d).dot(d) + v.dot(d)) < abs(d.x) + abs(d.y),
{
    let dd = d.norm_sq();
    let a = 2 * v.dot(d);
    let nx = a * d.x;
    let ny = a * d.y;
    let ex = nx / dd;
    let ey = ny / dd;
    let rx = nx % dd;
    let ry = ny % dd;
    vstd::arithmetic::div_mod::lemma_fundamental_div_mod(nx, dd);
    vstd::arithmetic::div_mod::lemma_fundamental_div_mod(ny, dd);
    vstd::arithmetic::div_mod::lemma_mod_bound(nx, dd);
    vstd::arithmetic::div_mod::lemma_mod_bound(ny, dd);
    let err = v.mirror(d).dot(d) + v.dot(d);
    assert(v.mirror(d).x == v.x - ex && v.mirror(d).y == v.y - ey);
    assert(err == a - (ex * d.x + ey * d.y)) by (nonlinear_arith)
        requires
            err == (v.x - ex) * d.x + (v.y - ey) * d.y + (v.x * d.x + v.y * d.y),
            a == 2 * (v.x * d.x + v.y * d.y),
    ;
    assert(dd * err == rx * d.x + ry * d.y) by (nonlinear_arith)
        requires
            err == a - (ex * d.x + ey * d.y),
            dd == d.x * d.x + d.y * d.y,
            a * d.x == dd * ex + rx,
            a * d.y == dd * ey + ry,
    ;
    lemma_weighted_sum_bound(rx, ry, d.x, d.y, dd);
    let reach = abs(d.x) + abs(d.y);
    assert(reach > 0) by (nonlinear_arith)
        requires
            d.x * d.x + d.y * d.y > 0,
            reach == abs(d.x) + abs(d.y),
    ;
    assert(abs(err) < reach) by (nonlinear_arith)
        requires
            dd > 0,
            reach > 0,
            -((dd - 1) * reach) <= dd * err <= (dd - 1) * reach,
    ;
}

/// A sum of two products whose first factors lie in `[0, m)`.
proof fn lemma_weighted_sum_bound(rx: int, ry: int, x: int, y: int, m: int)
    by (nonlinear_arith)
    requires
        0 <= rx < m,
        0 <= ry < m,
    ensures
        -((m - 1) * (abs(x) + abs(y))) <= rx * x + ry * y <= (m - 1) * (abs(x) + abs(y)),
{
    assert(-((m - 1) * abs(x)) <= rx * x <= (m - 1) * abs(x));
    assert(-((m - 1) * abs(y)) <= ry * y <= (m - 1) * abs(y));
}

/// Reflection about an axis is exact: about a vertical direction the
/// vertical component changes sign and the horizontal one stays, and about a
/// horizontal direction the other way round.
pub proof fn mirror_about_an_axis(v: Vector, d: Vector)
    requires
        d.norm_sq() > 0,
    ensures
        d.x == 0 ==> v.mirror(d) == (Vector { x: v.x, y: -v.y }),
        d.y == 0 ==> v.mirror(d) == (Vector { x: -v.x, y: v.y }),
{
    if d.x == 0 {
        lemma_axis(v.y, d.y);
        assert(d.norm_sq() == d.y * d.y) by (nonlinear_arith)
            requires
                d.x == 0,
                d.norm_sq() == d.x * d.x + d.y * d.y,
        ;
        assert(2 * v.dot(d) * d.x == 0) by (nonlinear_arith)
            requires
                d.x == 0,
        ;
        assert(2 * v.dot(d) * d.y == (2 * v.y) * (d.y * d.y)) by (nonlinear_arith)
            requires
                d.x == 0,
                v.dot(d) == v.x * d.x + v.y * d.y,
        ;
    }
    if d.y == 0 {
        lemma_axis(v.x, d.x);
        assert(d.norm_sq() == d.x * d.x) by (nonlinear_arith)
            requires
                d.y == 0,
                d.norm_sq() == d.x * d.x + d.y * d.y,
        ;
        assert(2 * v.dot(d) * d.y == 0) by (nonlinear_arith)
            requires
                d.y == 0,
        ;
        assert(2 * v.dot(d) * d.x == (2 * v.x) * (d.x * d.x)) by (nonlinear_arith)
            requires
                d.y == 0,
                v.dot(d) == v.x * d.x + v.y * d.y,
        ;
    }
}

/// The two quotients of a reflection about an axis.
proof fn lemma_axis(along: int, k: int)
    requires
        k != 0,
    ensures
        0int / (k * k) == 0,
        ((2 * along) * (k * k)) / (k * k) == 2 * along,
{
    assert(k * k > 0) by (nonlinear_arith)
        requires
            k != 0,
    ;
    vstd::arithmetic::div_mod::lemma_div_multiples_vanish(2 * along, k * k);
    vstd::arithmetic::div_mod::lemma_div_of0(k * k);
    assert((2 * along) * (k * k) == (k * k) * (2 * along)) by (nonlinear_arith);
}

/// The magnitude of a quotient rounded away from zero is the least integer
/// whose product with the divisor reaches the magnitude of the numerator.
proof fn lemma_div_away_sandwich(n: int, d: int)
    requires
        d > 0,
    ensures
        d * (abs(div_away(n, d)) - 1) < abs(n) <= d * abs(div_away(n, d)),
        abs(div_away(n, d)) >= 0,
{
    let m = abs(n);
    let c = (m + d - 1) / d;
    let rem = (m + d - 1) % d;
    vstd::arithmetic::div_mod::lemma_fundamental_div_mod(m + d - 1, d);
    vstd::arithmetic::div_mod::lemma_mod_bound(m + d - 1, d);
    vstd::arithmetic::div_mod::lemma_div_pos_is_pos(m + d - 1, d);
    assert(abs(div_away(n, d)) == c);
    assert(m + d - 1 == d * c + rem);
    assert(d * (c - 1) == d * c - d) by (nonlinear_arith);
}

/// A ring sets what penetrates it onto its inner circle. A particle within
/// the band of a ring that is no smaller than the particle, and nearer to the
/// ring's centre than `outer`, leaves the ring's answer at a distance from
/// the centre that is no less than `inner = radius - r` and less than
/// `inner + 3`, three millionths of a pixel: it never comes to lie inside the
/// inner circle.
pub proof fn ring_sets_onto_inner_circle(p: Particle, ring: Obstacle, r: int, t: int)
    requires
        p.in_band(ring, r, t),
        p.penetrates(ring, r, t),
        ring.radius >= r,
    ensures
        ({
            let inner = ring.radius - r;
            let offset = p.collide_ring(ring, r, t).position.minus(ring.center);
            inner * inner <= offset.norm_sq() < (inner + 3) * (inner + 3)
        }),
{
    let d = p.position.minus(ring.center);
    let dd = d.norm_sq();
    let inner = ring.radius - r;
    let len = sqrt_floor(dd);
    let offset = p.collide_ring(ring, r, t).position.minus(ring.center);
    lemma_sqrt_floor_exists(dd);
    lemma_component_below_root(d, len);
    assert(inner * inner <= dd) by (nonlinear_arith)
        requires
            inner >= 0,
            inner <= 0 || inner * inner <= dd,
            dd > 0,
    ;
    assert(len >= 1 && inner <= len) by (nonlinear_arith)
        requires
            is_sqrt_floor(dd, len),
            dd > 0,
            inner >= 0,
            inner * inner <= dd,
    ;
    assert(offset.x == div_away(d.x * inner, len));
    assert(offset.y == div_away(d.y * inner, len));
    let a = abs(d.x);
    let b = abs(d.y);
    let cx = abs(offset.x);
    let cy = abs(offset.y);
    lemma_div_away_sandwich(d.x * inner, len);
    lemma_div_away_sandwich(d.y * inner, len);
    assert(abs(d.x * inner) == a * inner && abs(d.y * inner) == b * inner) by (nonlinear_arith)
        requires
            inner >= 0,
            a == abs(d.x),
            b == abs(d.y),
    ;
    assert(offset.norm_sq() == cx * cx + cy * cy) by (nonlinear_arith)
        requires
            cx == abs(offset.x),
            cy == abs(offset.y),
            offset.norm_sq() == offset.x * offset.x + offset.y * offset.y,
    ;
    assert(dd == a * a + b * b) by (nonlinear_arith)
        requires
            a == abs(d.x),
            b == abs(d.y),
            dd == d.x * d.x + d.y * d.y,
    ;
    lemma_circle_lower(a, b, cx, cy, inner, len, dd);
    lemma_circle_upper(a, b, cx, cy, inner, len, dd);
}

/// The lower half of `ring_sets_onto_inner_circle`, over magnitudes.
proof fn lemma_circle_lower(a: int, b: int, cx: int, cy: int, inner: int, len: int, dd: int)
    requires
        0 <= a,
        0 <= b,
        0 <= cx,
        0 <= cy,
        0 <= inner,
        1 <= len,
        dd == a * a + b * b,
        len * len <= dd,
        a * inner <= len * cx,
        b * inner <= len * cy,
    ensures
        inner * inner <= cx * cx + cy * cy,
{
    assert((a * inner) * (a * inner) <= (len * cx) * (len * cx)) by (nonlinear_arith)
        requires
            0 <= a * inner <= len * cx,
    ;
    assert((b * inner) * (b * inner) <= (len * cy) * (len * cy)) by (nonlinear_arith)
        requires
            0 <= b * inner <= len * cy,
    ;
    assert((a * inner) * (a * inner) + (b * inner) * (b * inner) == dd * (inner * inner))
        by (nonlinear_arith)
        requires
            dd == a * a + b * b,
    ;
    assert((len * cx) * (len * cx) + (len * cy) * (len * cy) == (len * len) * (cx * cx + cy * cy))
        by (nonlinear_arith);
    assert((len * len) * (inner * inner) <= dd * (inner * inner)) by (nonlinear_arith)
        requires
            len * len <= dd,
    ;
    assert(inner * inner <= cx * cx + cy * cy) by (nonlinear_arith)
        requires
            (len * len) * (inner * inner) <= (len * len) * (cx * cx + cy * cy),
            len >= 1,
    ;
}

/// The upper half of `ring_sets_onto_inner_circle`, over magnitudes.
proof fn lemma_circle_upper(a: int, b: int, cx: int, cy: int, inner: int, len: int, dd: int)
    requires
        0 <= a <= len,
        0 <= b <= len,
        0 <= cx,
        0 <= cy,
        0 <= inner <= len,
        1 <= len,
        dd == a * a + b * b,
        dd < (len + 1) * (len + 1),
        len * (cx - 1) < a * inner,
        len * (cy - 1) < b * inner,
    ensures
        cx * cx + cy * cy < (inner + 3) * (inner + 3),
{
    let ll = len * len;
    let ii = inner * inner;
    let ai = a * inner;
    let bi = b * inner;
    let sx = len * cx;
    let sy = len * cy;
    let total = cx * cx + cy * cy;
    let square = (inner + 3) * (inner + 3);
    assert(sx < ai + len && sy < bi + len) by (nonlinear_arith)
        requires
            len * (cx - 1) < ai,
            len * (cy - 1) < bi,
            sx == len * cx,
            sy == len * cy,
    ;
    assert(sx >= 0 && sy >= 0) by (nonlinear_arith)
        requires
            sx == len * cx,
            sy == len * cy,
            len >= 1,
            cx >= 0,
            cy >= 0,
    ;
    assert(ai >= 0 && bi >= 0 && ai <= len * inner && bi <= len * inner) by (nonlinear_arith)
        requires
            ai == a * inner,
            bi == b * inner,
            0 <= a <= len,
            0 <= b <= len,
            0 <= inner,
    ;
    assert(sx * sx < ai * ai + 2 * (len * ai) + ll) by (nonlinear_arith)
        requires
            0 <= sx < ai + len,
            ai >= 0,
            len >= 1,
            ll == len * len,
    ;
    assert(sy * sy < bi * bi + 2 * (len * bi) + ll) by (nonlinear_arith)
        requires
            0 <= sy < bi + len,
            bi >= 0,
            len >= 1,
            ll == len * len,
    ;
    assert(ai * ai + bi * bi == dd * ii) by (nonlinear_arith)
        requires
            ai == a * inner,
            bi == b * inner,
            ii == inner * inner,
            dd == a * a + b * b,
    ;
    assert(dd * ii <= ll * ii + 2 * (ll * inner)) by (nonlinear_arith)
        requires
            dd < (len + 1) * (len + 1),
            0 <= inner <= len,
            1 <= len,
            ll == len * len,
            ii == inner * inner,
    ;
    assert(len * ai <= ll * inner && len * bi <= ll * inner) by (nonlinear_arith)
        requires
            0 <= ai <= len * inner,
            0 <= bi <= len * inner,
            1 <= len,
            ll == len * len,
    ;
    assert(sx * sx + sy * sy == ll * total) by (nonlinear_arith)
        requires
            sx == len * cx,
            sy == len * cy,
            ll == len * len,
            total == cx * cx + cy * cy,
    ;
    assert(ll * square == ll * ii + 6 * (ll * inner) + 9 * ll) by (nonlinear_arith)
        requires
            square == (inner + 3) * (inner + 3),
            ii == inner * inner,
    ;
    assert(ll >= 1) by (nonlinear_arith)
        requires
            len >= 1,
            ll == len * len,
    ;
    assert(ll * total < ll * square);
    assert(total < square) by (nonlinear_arith)
        requires
            ll * total < ll * square,
            ll >= 1,
    ;
}

/// Particles at one and the same place do not collide: the one is left as it
/// was by the other.
pub proof fn coincident_particles_do_not_collide(p: Particle, other: Vector, r: int)
    requires
        r > 0,
        p.position == other,
    ensures
        !p.touches(other, r),
        p.collide(other, r) == p,
{
    assert(r * r > 0) by (nonlinear_arith)
        requires
            r > 0,
    ;
}

/// A particle on the centre of a ring is left as it was by that ring.
pub proof fn particle_on_ring_centre_is_not_caught(p: Particle, ring: Obstacle, r: int, t: int)
    requires
        p.position == ring.center,
    ensures
        p.collide_ring(ring, r, t) == p,
{
}

/// Spawning touches nothing that is there. After a particle or a ring has
/// been added, every particle and every ring that was there before is
/// unchanged and in its place, and so is every parameter.
pub proof fn spawn_keeps_existing(w: World, dot: Particle, ring: Obstacle)
    ensures
        w.add_dot(dot).dots.take(w.dots.len() as int) == w.dots,
        w.add_dot(dot).dots.len() == w.dots.len() + 1,
        w.add_dot(dot).dots.last() == dot,
        w.add_dot(dot) == (World { dots: w.add_dot(dot).dots, ..w }),
        w.add_ring(ring).rings.take(w.rings.len() as int) == w.rings,
        w.add_ring(ring).rings.len() == w.rings.len() + 1,
        w.add_ring(ring).rings.last() == ring,
        w.add_ring(ring) == (World { rings: w.add_ring(ring).rings, ..w }),
{
    assert(w.add_dot(dot).dots.take(w.dots.len() as int) =~= w.dots);
    assert(w.add_ring(ring).rings.take(w.rings.len() as int) =~= w.rings);
}

/// The settings panel touches nothing that is there: whatever it reports,
/// the particles and rings from before the frame are unchanged and in their
/// places, and at most one of each has been added behind them.
pub proof fn settings_keep_existing(w: World, s: Settings)
    ensures
        w.settings_window(s).dots.take(w.dots.len() as int) == w.dots,
        w.dots.len() <= w.settings_window(s).dots.len() <= w.dots.len() + 1,
        w.settings_window(s).rings.take(w.rings.len() as int) == w.rings,
        w.rings.len() <= w.settings_window(s).rings.len() <= w.rings.len() + 1,
        w.settings_window(s).paused == (w.paused != s.toggle_pause),
{
    assert(w.settings_window(s).dots.take(w.dots.len() as int) =~= w.dots);
    assert(w.settings_window(s).rings.take(w.rings.len() as int) =~= w.rings);
}

/// While paused, frames move nothing. Through any number of frames in which
/// the pause button is not clicked, a paused simulation stays paused, and
/// every particle and ring that was there at the start keeps its place in the
/// store, its position, its velocity and its colour.
pub proof fn paused_frames_move_nothing(w: World, frames: Seq<Input>)
    requires
        w.paused,
        forall|k: int| 0 <= k < frames.len() ==> !(#[trigger] frames[k]).settings.toggle_pause,
    ensures
        w.run(frames).paused,
        w.run(frames).dots.len() >= w.dots.len(),
        w.run(frames).dots.take(w.dots.len() as int) == w.dots,
        w.run(frames).rings.len() >= w.rings.len(),
        w.run(frames).rings.take(w.rings.len() as int) == w.rings,
    decreases frames.len(),
{
    if frames.len() == 0 {
        assert(w.dots.take(w.dots.len() as int) =~= w.dots);
        assert(w.rings.take(w.rings.len() as int) =~= w.rings);
    } else {
        let last = frames.last();
        let before = w.run(frames.drop_last());
        assert forall|k: int| 0 <= k < frames.drop_last().len() implies !(
        #[trigger] frames.drop_last()[k]).settings.toggle_pause by {
            assert(frames.drop_last()[k] == frames[k]);
        }
        paused_frames_move_nothing(w, frames.drop_last());
        settings_keep_existing(before, last.settings);
        let after = before.update(last.settings, last.screen, last.delta, last.damping);
        assert(after.dots == before.settings_window(last.settings).dots);
        assert(after.dots.take(w.dots.len() as int) =~= before.dots.take(w.dots.len() as int));
        assert(after.rings.take(w.rings.len() as int) =~= before.rings.take(w.rings.len() as int));
    }
}

/// Every state that frames lead to is well-formed: after any number of
/// frames with valid input, each position and each velocity is a number
/// within the stored range and each parameter lies in its range.
pub proof fn frames_keep_wf(w: World, frames: Seq<Input>)
    requires
        w.wf(),
        forall|k: int|
            0 <= k < frames.len() ==> {
                &&& (#[trigger] frames[k]).settings.valid()
                &&& frames[k].screen.within(VIEW_LIMIT as int)
                &&& frames[k].screen.ordered()
            },
    ensures
        w.run(frames).wf(),
    decreases frames.len(),
{
    if frames.len() > 0 {
        let last = frames.last();
        assert forall|k: int| 0 <= k < frames.drop_last().len() implies {
            &&& (#[trigger] frames.drop_last()[k]).settings.valid()
            &&& frames.drop_last()[k].screen.within(VIEW_LIMIT as int)
            &&& frames.drop_last()[k].screen.ordered()
        } by {
            assert(frames.drop_last()[k] == frames[k]);
        }
        frames_keep_wf(w, frames.drop_last());
        lemma_update_wf(
            w.run(frames.drop_last()),
            last.settings,
            last.screen,
            last.delta,
            last.damping,
        );
    }
}

} // verus!
