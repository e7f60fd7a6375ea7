//! Targeting and steering: destination assignment from right-click picks,
//! and the per-tick integration that blends movement toward the destination
//! with pairwise separation from nearby units.
//!
//! All quantities are fixed-point (`SCALE` steps per world unit) and every
//! formula below is stated exactly, including the flooring of the integer
//! square root and of the quotients.

use vstd::prelude::*;

verus! {

use crate::{ARRIVAL_BASE, NEIGHBOR_SLACK, SCALE, SPEED_LIMIT};
use crate::ability::Ability;
use crate::geometry::{
    Vec3Fx, clamp_coord, div_toward_zero, isqrt, lemma_div_toward_zero_bound,
    lemma_sqrt_floor_bracket, spec_clamp_coord, sqrt_floor,
};
use crate::unit::{TargetPosition, Unit, UnitBundle};
use crate::world::{TickInput, World, WorldView, with_units};

/// The minimum allowed separation of a pair: the sum of the two social
/// distances.
pub open spec fn spec_min_dist(a: Unit, b: Unit) -> int {
    a.social_distance + b.social_distance
}

/// Whether the units at positions `i` and `j` of the unit list crowd each
/// other: distinct units whose ground-plane distance is below the pair's
/// minimum separation.
pub open spec fn spec_near(units: Seq<UnitBundle>, i: int, j: int) -> bool {
    i != j && units[i].pos.spec_dist_sq_xz(units[j].pos) < spec_min_dist(
        units[i].unit,
        units[j].unit,
    ) * spec_min_dist(units[i].unit, units[j].unit)
}

/// How many of the first `j` units crowd unit `i`.
pub open spec fn spec_nearby_count(units: Seq<UnitBundle>, i: int, j: int) -> int
    decreases j,
{
    if j <= 0 {
        0
    } else {
        spec_nearby_count(units, i, j - 1) + if spec_near(units, i, j - 1) {
            1int
        } else {
            0int
        }
    }
}

/// The push-apart contribution one crowding unit `b` adds to `a`'s
/// velocity: the displacement from `b` to `a`, normalised by the floored
/// distance `d`, scaled by `(min_dist - d) / min_dist`, in fixed point.
/// A coincident pair (`d == 0`) contributes nothing, so no division by
/// zero ever arises.
pub open spec fn spec_sep_pair(a: UnitBundle, b: UnitBundle) -> (int, int) {
    let d = sqrt_floor(a.pos.spec_dist_sq_xz(b.pos));
    let m = spec_min_dist(a.unit, b.unit);
    if d == 0 {
        (0, 0)
    } else {
        (
            div_toward_zero((a.pos.x - b.pos.x) * ((m - d) * SCALE), d * m),
            div_toward_zero((a.pos.z - b.pos.z) * ((m - d) * SCALE), d * m),
        )
    }
}

/// The summed separation contribution of the first `j` units to unit `i`.
pub open spec fn spec_sep_sum(units: Seq<UnitBundle>, i: int, j: int) -> (int, int)
    decreases j,
{
    if j <= 0 {
        (0, 0)
    } else {
        let rest = spec_sep_sum(units, i, j - 1);
        if spec_near(units, i, j - 1) {
            let c = spec_sep_pair(units[i], units[j - 1]);
            (rest.0 + c.0, rest.1 + c.1)
        } else {
            rest
        }
    }
}

/// The arrival radius grows by one world unit of slack per crowding
/// neighbour.
pub open spec fn spec_arrival_threshold(nearby: int) -> int {
    ARRIVAL_BASE + NEIGHBOR_SLACK * nearby
}

/// `me` moved by a ground-plane velocity, each coordinate clamped into the
/// world. The vertical coordinate is untouched: separation and attraction
/// are both ground-plane vectors, so the vertical velocity is zero and the
/// floor rule (no downward velocity at or below floor height) never fires.
pub open spec fn spec_move_by(me: UnitBundle, vx: int, vz: int) -> UnitBundle {
    UnitBundle {
        pos: Vec3Fx {
            x: spec_clamp_coord(me.pos.x + vx),
            y: me.pos.y,
            z: spec_clamp_coord(me.pos.z + vz),
        },
        ..me
    }
}

/// One integration step of the unit at position `i`, computed against the
/// pre-tick unit list: separation from all crowding neighbours, plus
/// attraction toward the destination at the unit's speed while the floored
/// distance to it exceeds the (crowding-inflated) arrival threshold; at or
/// below the threshold the destination is cleared instead and only
/// separation moves the unit.
pub open spec fn spec_step_unit(units: Seq<UnitBundle>, i: int) -> UnitBundle {
    let me = units[i];
    let nearby = spec_nearby_count(units, i, units.len() as int);
    let sep = spec_sep_sum(units, i, units.len() as int);
    match me.target.pos {
        None => spec_move_by(me, sep.0, sep.1),
        Some(t) => {
            let dist = sqrt_floor(me.pos.spec_dist_sq_xz(t));
            if dist > spec_arrival_threshold(nearby) {
                spec_move_by(
                    me,
                    sep.0 + div_toward_zero((t.x - me.pos.x) * me.unit.speed, dist),
                    sep.1 + div_toward_zero((t.z - me.pos.z) * me.unit.speed, dist),
                )
            } else {
                UnitBundle { target: TargetPosition { pos: None }, ..spec_move_by(me, sep.0, sep.1) }
            }
        },
    }
}

/// The steering pass: every unit takes one integration step, all steps
/// computed against the same pre-tick positions.
pub open spec fn spec_unit_movement(w: WorldView) -> WorldView {
    with_units(w, Seq::new(w.units.len(), |i: int| spec_step_unit(w.units, i)))
}

/// The destination-assignment pass: on a right-click edge in `Select` mode
/// with a pick present, every selected unit's destination becomes the pick
/// point; without a pick nothing happens.
pub open spec fn spec_set_target_for_selected(w: WorldView, input: TickInput) -> WorldView {
    if w.ability.ability != Ability::Select || !input.right_pressed {
        w
    } else {
        match input.pick {
            None => w,
            Some(p) => with_units(
                w,
                Seq::new(
                    w.units.len(),
                    |i: int|
                        if w.units[i].selectable.selected {
                            UnitBundle {
                                target: TargetPosition { pos: Some(p.position) },
                                ..w.units[i]
                            }
                        } else {
                            w.units[i]
                        },
                ),
            ),
        }
    }
}

/// For every pair within its minimum separation, the push-apart
/// contribution points strictly away from the other unit — each component
/// carries the sign of the displacement from `b` to `a`, and the
/// contribution's projection onto that displacement is strictly positive —
/// and its components are exactly the quantised proportional push
/// `(delta / d) * ((min_dist - d) / min_dist)` in fixed point, so the
/// magnitude grows with `min_dist - d`. The strictness needs the overlap
/// to be at least a five-hundredth of the minimum separation
/// (`500 * (min_dist - d) >= min_dist`); a shallower overlap can floor to
/// a zero push.
pub proof fn lemma_separation_points_away(a: UnitBundle, b: UnitBundle)
    requires
        a.unit.wf(),
        b.unit.wf(),
        0 < a.pos.spec_dist_sq_xz(b.pos),
        a.pos.spec_dist_sq_xz(b.pos) < spec_min_dist(a.unit, b.unit) * spec_min_dist(
            a.unit,
            b.unit,
        ),
        500 * (spec_min_dist(a.unit, b.unit) - sqrt_floor(a.pos.spec_dist_sq_xz(b.pos)))
            >= spec_min_dist(a.unit, b.unit),
    ensures
        ({
            let d = sqrt_floor(a.pos.spec_dist_sq_xz(b.pos));
            let m = spec_min_dist(a.unit, b.unit);
            let push = spec_sep_pair(a, b);
            let dx = a.pos.x - b.pos.x;
            let dz = a.pos.z - b.pos.z;
            &&& push.0 == div_toward_zero(dx * ((m - d) * SCALE), d * m)
            &&& push.1 == div_toward_zero(dz * ((m - d) * SCALE), d * m)
            &&& (dx > 0 ==> push.0 >= 0) && (dx < 0 ==> push.0 <= 0) && (dx == 0 ==> push.0 == 0)
            &&& (dz > 0 ==> push.1 >= 0) && (dz < 0 ==> push.1 <= 0) && (dz == 0 ==> push.1 == 0)
            &&& push.0 * dx + push.1 * dz > 0
        }),
{
    let d2 = a.pos.spec_dist_sq_xz(b.pos);
    let d = sqrt_floor(d2);
    let m = spec_min_dist(a.unit, b.unit);
    let dx = a.pos.x - b.pos.x;
    let dz = a.pos.z - b.pos.z;
    lemma_sqrt_floor_bracket(d2);
    assert(d >= 1);
    assert(d < m) by (nonlinear_arith)
        requires
            d * d <= d2,
            d2 < m * m,
            0 <= d,
            0 < m,
    ;
    let den = d * m;
    let factor = (m - d) * SCALE;
    assert(den > 0 && factor > 0) by (nonlinear_arith)
        requires
            den == d * m,
            factor == (m - d) * SCALE,
            0 < d < m,
            SCALE == 1000,
    ;
    let adx = if dx >= 0 {
        dx
    } else {
        -dx
    };
    let adz = if dz >= 0 {
        dz
    } else {
        -dz
    };
    assert(dx * dx + dz * dz == d2);
    assert(adx * adx + adz * adz == d2 && 0 <= adx && 0 <= adz) by (nonlinear_arith)
        requires
            dx * dx + dz * dz == d2,
            adx == if dx >= 0 { dx as int } else { -dx as int },
            adz == if dz >= 0 { dz as int } else { -dz as int },
    ;
    // the dominant axis carries at least half the floored distance
    let big = if adx >= adz {
        adx
    } else {
        adz
    };
    assert(2 * big >= d) by (nonlinear_arith)
        requires
            adx * adx + adz * adz == d2,
            d * d <= d2,
            d2 < (d + 1) * (d + 1),
            0 <= adx,
            0 <= adz,
            0 <= d,
            big == if adx >= adz { adx } else { adz },
    ;
    // the dominant-axis numerator reaches the denominator, so its quotient
    // is at least one
    assert(big * factor >= den) by (nonlinear_arith)
        requires
            2 * big >= d,
            d >= 1,
            factor == (m - d) * SCALE,
            den == d * m,
            500 * (m - d) >= m,
            0 < d < m,
            SCALE == 1000,
            big >= 0,
    ;
    vstd::arithmetic::div_mod::lemma_div_non_zero(big * factor, den);
    assert(adx * factor >= 0 && adz * factor >= 0) by (nonlinear_arith)
        requires
            0 <= adx,
            0 <= adz,
            0 <= factor,
    ;
    vstd::arithmetic::div_mod::lemma_div_pos_is_pos(adx * factor, den);
    vstd::arithmetic::div_mod::lemma_div_pos_is_pos(adz * factor, den);
    let qx = (adx * factor) / den;
    let qz = (adz * factor) / den;
    if dx == 0 {
        assert(adx * factor == 0) by (nonlinear_arith)
            requires
                adx == 0,
        ;
        vstd::arithmetic::div_mod::lemma_div_of0(den);
        assert(qx == 0);
    }
    if dz == 0 {
        assert(adz * factor == 0) by (nonlinear_arith)
            requires
                adz == 0,
        ;
        vstd::arithmetic::div_mod::lemma_div_of0(den);
        assert(qz == 0);
    }
    assert(dx * factor == if dx >= 0 {
        adx * factor
    } else {
        -(adx * factor)
    }) by (nonlinear_arith)
        requires
            adx == if dx >= 0 { dx as int } else { -dx as int },
    ;
    assert(dz * factor == if dz >= 0 {
        adz * factor
    } else {
        -(adz * factor)
    }) by (nonlinear_arith)
        requires
            adz == if dz >= 0 { dz as int } else { -dz as int },
    ;
    let push = spec_sep_pair(a, b);
    assert(push.0 == if dx >= 0 {
        qx
    } else {
        -qx
    });
    assert(push.1 == if dz >= 0 {
        qz
    } else {
        -qz
    });
    // strict positivity of the projection: the dominant axis contributes
    // at least its displacement, the other axis never subtracts
    assert(push.0 * dx == qx * adx && push.1 * dz == qz * adz) by (nonlinear_arith)
        requires
            push.0 == if dx >= 0 { qx } else { -qx },
            push.1 == if dz >= 0 { qz } else { -qz },
            adx == if dx >= 0 { dx as int } else { -dx as int },
            adz == if dz >= 0 { dz as int } else { -dz as int },
    ;
    if adx >= adz {
        assert(qx >= 1 && adx >= 1) by {
            assert(big == adx);
            assert(2 * adx >= d && d >= 1);
        }
        assert(qx * adx >= 1 && qz * adz >= 0) by (nonlinear_arith)
            requires
                qx >= 1,
                adx >= 1,
                qz >= 0,
                adz >= 0,
        ;
    } else {
        assert(qz >= 1 && adz >= 1) by {
            assert(big == adz);
            assert(2 * adz >= d && d >= 1);
        }
        assert(qz * adz >= 1 && qx * adx >= 0) by (nonlinear_arith)
            requires
                qz >= 1,
                adz >= 1,
                qx >= 0,
                adx >= 0,
        ;
    }
}

/// Idempotence of the two halves of the integration step. A unit that is
/// already `Idle` (no destination) stays `Idle`: the arrival check is a
/// no-op and the step moves it by bare separation. And on a configuration
/// that is already separated — every other unit at or beyond the pair's
/// minimum separation — the separation pass contributes nothing and finds
/// no crowding neighbours.
pub proof fn lemma_integration_idempotent(units: Seq<UnitBundle>, i: int)
    requires
        0 <= i < units.len(),
    ensures
        units[i].target.pos is None ==> spec_step_unit(units, i) == spec_move_by(
            units[i],
            spec_sep_sum(units, i, units.len() as int).0,
            spec_sep_sum(units, i, units.len() as int).1,
        ) && spec_step_unit(units, i).target.pos is None,
        (forall|j: int|
            0 <= j < units.len() && j != i ==> units[i].pos.spec_dist_sq_xz(units[j].pos)
                >= spec_min_dist(units[i].unit, units[j].unit) * spec_min_dist(
                units[i].unit,
                units[j].unit,
            )) ==> spec_sep_sum(units, i, units.len() as int) == (0int, 0int)
            && spec_nearby_count(units, i, units.len() as int) == 0,
{
    if forall|j: int|
        0 <= j < units.len() && j != i ==> units[i].pos.spec_dist_sq_xz(units[j].pos)
            >= spec_min_dist(units[i].unit, units[j].unit) * spec_min_dist(
            units[i].unit,
            units[j].unit,
        ) {
        lemma_separated_prefix(units, i, units.len() as int);
    }
}

/// Helper for `lemma_integration_idempotent`: on a separated
/// configuration every prefix of the scan accumulates nothing.
proof fn lemma_separated_prefix(units: Seq<UnitBundle>, i: int, j: int)
    requires
        0 <= i < units.len(),
        j <= units.len(),
        forall|k: int|
            0 <= k < units.len() && k != i ==> units[i].pos.spec_dist_sq_xz(units[k].pos)
                >= spec_min_dist(units[i].unit, units[k].unit) * spec_min_dist(
                units[i].unit,
                units[k].unit,
            ),
    ensures
        spec_sep_sum(units, i, j) == (0int, 0int),
        spec_nearby_count(units, i, j) == 0,
    decreases j,
{
    if j > 0 {
        lemma_separated_prefix(units, i, j - 1);
    }
}

/// Arrival fires exactly once. The integration step clears the destination
/// precisely when one exists and the floored distance to it is within the
/// crowding-inflated arrival threshold; a unit without a destination keeps
/// none, so once arrival has cleared the destination no later step can
/// trigger arrival again, and while the unit is still under way the
/// destination point itself is left untouched.
pub proof fn lemma_arrival_clears_once(units: Seq<UnitBundle>, i: int)
    requires
        0 <= i < units.len(),
    ensures
        spec_step_unit(units, i).target.pos is None <==> (units[i].target.pos is None || (
        units[i].target.pos matches Some(t) && sqrt_floor(units[i].pos.spec_dist_sq_xz(t))
            <= spec_arrival_threshold(spec_nearby_count(units, i, units.len() as int)))),
        units[i].target.pos is None ==> spec_step_unit(units, i).target.pos is None,
        spec_step_unit(units, i).target.pos is Some ==> spec_step_unit(units, i).target.pos
            == units[i].target.pos,
{
}

/// One integration step of a unit steering alone: the world holds only it,
/// so there is no crowding and no separation.
pub open spec fn spec_step_alone(u: UnitBundle) -> UnitBundle {
    spec_step_unit(seq![u], 0)
}

/// `n` integration steps of a unit steering alone.
pub open spec fn spec_iterate_alone(u: UnitBundle, n: nat) -> UnitBundle
    decreases n,
{
    if n == 0 {
        u
    } else {
        spec_step_alone(spec_iterate_alone(u, (n - 1) as nat))
    }
}

/// On a world holding a single unit, the steering pass is exactly one
/// solo step of that unit: the iterate model below speaks about the real
/// pass.
pub proof fn lemma_unit_movement_alone(w: WorldView)
    requires
        w.units.len() == 1,
    ensures
        spec_unit_movement(w).units == seq![spec_step_alone(w.units[0])],
{
    assert(w.units =~= seq![w.units[0]]);
    assert(spec_unit_movement(w).units =~= seq![spec_step_alone(w.units[0])]);
}

/// Core of the arrival-liveness argument, in plain integers: moving by the
/// two truncated quotients `q = floor_toward_zero(delta * s / dist)` shrinks
/// the squared ground distance to at most `(dist - s + 4)^2` — each
/// truncation costs less than one whole step per axis.
proof fn lemma_attraction_shrinks(
    dx: int,
    dz: int,
    s: int,
    dist: int,
    d2: int,
    qx: int,
    qz: int,
    ex: int,
    ez: int,
)
    requires
        0 < s <= dist,
        dx * dx + dz * dz == d2,
        dist * dist <= d2 < (dist + 1) * (dist + 1),
        ex == dist * qx - dx * s,
        ez == dist * qz - dz * s,
        -dist < ex < dist,
        -dist < ez < dist,
    ensures
        (dx - qx) * (dx - qx) + (dz - qz) * (dz - qz) <= (dist - s + 4) * (dist - s + 4),
{
    let nx = dx - qx;
    let nz = dz - qz;
    assert(-dist <= dx <= dist && -dist <= dz <= dist) by (nonlinear_arith)
        requires
            dx * dx + dz * dz == d2,
            d2 < (dist + 1) * (dist + 1),
            0 < dist,
    ;
    assert(dist * nx == dx * (dist - s) - ex && dist * nz == dz * (dist - s) - ez)
        by (nonlinear_arith)
        requires
            nx == dx - qx,
            nz == dz - qz,
            ex == dist * qx - dx * s,
            ez == dist * qz - dz * s,
    ;
    assert((dist * dist) * (nx * nx + nz * nz) == (dx * (dist - s) - ex) * (dx * (dist - s) - ex)
        + (dz * (dist - s) - ez) * (dz * (dist - s) - ez)) by (nonlinear_arith)
        requires
            dist * nx == dx * (dist - s) - ex,
            dist * nz == dz * (dist - s) - ez,
    ;
    // expand the squares and bound the cross terms and remainders
    let ax = dx * (dist - s);
    let az = dz * (dist - s);
    assert((ax - ex) * (ax - ex) == ax * ax - 2 * (ax * ex) + ex * ex && (az - ez) * (az - ez)
        == az * az - 2 * (az * ez) + ez * ez) by (nonlinear_arith);
    assert(ax * ax + az * az == (dist - s) * (dist - s) * d2) by (nonlinear_arith)
        requires
            ax == dx * (dist - s),
            az == dz * (dist - s),
            dx * dx + dz * dz == d2,
    ;
    assert(-((dist * dist) * (dist - s)) <= ax * ex <= (dist * dist) * (dist - s))
        by (nonlinear_arith)
        requires
            ax == dx * (dist - s),
            -dist <= dx <= dist,
            -dist < ex < dist,
            0 <= dist - s,
            0 < dist,
    ;
    assert(-((dist * dist) * (dist - s)) <= az * ez <= (dist * dist) * (dist - s))
        by (nonlinear_arith)
        requires
            az == dz * (dist - s),
            -dist <= dz <= dist,
            -dist < ez < dist,
            0 <= dist - s,
            0 < dist,
    ;
    assert(ex * ex <= dist * dist && ez * ez <= dist * dist) by (nonlinear_arith)
        requires
            -dist < ex < dist,
            -dist < ez < dist,
            0 < dist,
    ;
    assert((ax - ex) * (ax - ex) + (az - ez) * (az - ez) <= (dist - s) * (dist - s) * d2 + 4 * ((
    dist * dist) * (dist - s)) + 2 * (dist * dist));
    // the slack absorbs the +2*dist of the floored distance bracket
    assert(d2 <= dist * dist + 2 * dist) by (nonlinear_arith)
        requires
            d2 < (dist + 1) * (dist + 1),
    ;
    assert((dist - s) * (dist - s) * d2 + 4 * ((dist * dist) * (dist - s)) + 2 * (dist * dist)
        <= (dist * dist) * ((dist - s + 4) * (dist - s + 4))) by (nonlinear_arith)
        requires
            d2 <= dist * dist + 2 * dist,
            0 <= dist - s <= dist,
            0 < dist,
    ;
    assert(nx * nx + nz * nz <= (dist - s + 4) * (dist - s + 4)) by (nonlinear_arith)
        requires
            (dist * dist) * (nx * nx + nz * nz) <= (dist * dist) * ((dist - s + 4) * (dist - s
                + 4)),
            0 < dist,
    ;
}

/// One step of a unit steering alone: within the base arrival radius the
/// destination is cleared; beyond it the destination is kept and the
/// floored ground distance shrinks by at least `speed - 4` (truncating the
/// two direction quotients costs at most four coordinate steps). The speed
/// must not exceed the arrival radius — a faster unit can overshoot the
/// destination and oscillate around it forever — and must be at least five
/// coordinate steps, or the truncation can swallow the whole step.
pub proof fn lemma_solo_step_progress(u: UnitBundle)
    requires
        u.wf(),
        u.target.pos is Some,
        5 <= u.unit.speed <= ARRIVAL_BASE,
    ensures
        ({
            let t = u.target.pos->Some_0;
            let dist = sqrt_floor(u.pos.spec_dist_sq_xz(t));
            let u2 = spec_step_alone(u);
            &&& u2.wf()
            &&& u2.unit == u.unit
            &&& dist <= spec_arrival_threshold(0) ==> u2.target.pos is None
            &&& dist > spec_arrival_threshold(0) ==> u2.target.pos == u.target.pos && sqrt_floor(
                u2.pos.spec_dist_sq_xz(t),
            ) <= dist - (u.unit.speed - 4)
        }),
{
    let units = seq![u];
    assert(units.len() == 1 && units[0] == u);
    assert(spec_nearby_count(units, 0, 0) == 0);
    assert(spec_nearby_count(units, 0, 1) == 0);
    assert(spec_sep_sum(units, 0, 0) == (0int, 0int));
    assert(spec_sep_sum(units, 0, 1) == (0int, 0int));
    let t = u.target.pos->Some_0;
    let d2 = u.pos.spec_dist_sq_xz(t);
    let dx = t.x - u.pos.x;
    let dz = t.z - u.pos.z;
    assert(d2 == dx * dx + dz * dz && d2 >= 0) by (nonlinear_arith)
        requires
            d2 == (u.pos.x - t.x) * (u.pos.x - t.x) + (u.pos.z - t.z) * (u.pos.z - t.z),
            dx == t.x - u.pos.x,
            dz == t.z - u.pos.z,
    ;
    lemma_sqrt_floor_bracket(d2);
    let dist = sqrt_floor(d2);
    let u2 = spec_step_alone(u);
    if dist <= spec_arrival_threshold(0) {
        assert(u2 == (UnitBundle { target: TargetPosition { pos: None }, ..spec_move_by(u, 0, 0) }));
        assert(u2.pos == u.pos);
    } else {
        let s = u.unit.speed as int;
        assert(0 < s < dist);
        let qx = div_toward_zero(dx * s, dist);
        let qz = div_toward_zero(dz * s, dist);
        assert(u2 == spec_move_by(u, 0 + qx, 0 + qz));
        // remainder bounds for the two truncating quotients, and the step
        // never reaches past the destination on either axis
        lemma_quotient_remainder(dx, s, dist);
        lemma_quotient_remainder(dz, s, dist);
        let ex = dist * qx - dx * s;
        let ez = dist * qz - dz * s;
        // the clamp never fires: the new coordinate lies between the old
        // one and the destination's, both inside the world
        assert(u2.pos.x == u.pos.x + qx && u2.pos.z == u.pos.z + qz && u2.pos.y == u.pos.y);
        let nd2 = u2.pos.spec_dist_sq_xz(t);
        assert(nd2 == (dx - qx) * (dx - qx) + (dz - qz) * (dz - qz)) by (nonlinear_arith)
            requires
                nd2 == (u.pos.x + qx - t.x) * (u.pos.x + qx - t.x) + (u.pos.z + qz - t.z) * (
                u.pos.z + qz - t.z),
                dx == t.x - u.pos.x,
                dz == t.z - u.pos.z,
        ;
        lemma_attraction_shrinks(dx, dz, s, dist, d2, qx, qz, ex, ez);
        assert(nd2 >= 0) by (nonlinear_arith)
            requires
                nd2 == (dx - qx) * (dx - qx) + (dz - qz) * (dz - qz),
        ;
        lemma_sqrt_floor_bracket(nd2);
        let nd = sqrt_floor(nd2);
        if nd > dist - s + 4 {
            assert((dist - s + 5) * (dist - s + 5) <= nd * nd && (dist - s + 4) * (dist - s + 4)
                < (dist - s + 5) * (dist - s + 5)) by (nonlinear_arith)
                requires
                    dist - s + 5 <= nd,
                    0 <= dist - s + 4,
            ;
        }
    }
}

/// The remainder facts for one axis of the attraction step: with
/// `q = div_toward_zero(delta * s, dist)`, the product `dist * q` misses
/// `delta * s` by less than `dist`, and `q` lies between zero and `delta`.
proof fn lemma_quotient_remainder(delta: int, s: int, dist: int)
    requires
        0 < s <= dist,
    ensures
        -dist < dist * div_toward_zero(delta * s, dist) - delta * s < dist,
        delta >= 0 ==> 0 <= div_toward_zero(delta * s, dist) <= delta,
        delta < 0 ==> delta <= div_toward_zero(delta * s, dist) <= 0,
{
    let q = div_toward_zero(delta * s, dist);
    if delta >= 0 {
        assert(delta * s >= 0) by (nonlinear_arith)
            requires
                delta >= 0,
                s > 0,
        ;
        assert(q == (delta * s) / dist);
        vstd::arithmetic::div_mod::lemma_fundamental_div_mod(delta * s, dist);
        vstd::arithmetic::div_mod::lemma_mod_bound(delta * s, dist);
        assert(delta * s <= delta * dist) by (nonlinear_arith)
            requires
                delta >= 0,
                s <= dist,
        ;
        vstd::arithmetic::div_mod::lemma_div_pos_is_pos(delta * s, dist);
        vstd::arithmetic::div_mod::lemma_div_is_ordered(delta * s, delta * dist, dist);
        vstd::arithmetic::div_mod::lemma_div_multiples_vanish(delta, dist);
    } else {
        let m = -delta;
        assert(m * s >= 0) by (nonlinear_arith)
            requires
                m > 0,
                s > 0,
        ;
        assert(delta * s < 0 && delta * s == -(m * s)) by (nonlinear_arith)
            requires
                m == -delta,
                delta < 0,
                s > 0,
        ;
        assert(q == -((m * s) / dist));
        vstd::arithmetic::div_mod::lemma_fundamental_div_mod(m * s, dist);
        vstd::arithmetic::div_mod::lemma_mod_bound(m * s, dist);
        assert(dist * q - delta * s == (m * s) % dist) by (nonlinear_arith)
            requires
                q == -((m * s) / dist),
                m * s == dist * ((m * s) / dist) + (m * s) % dist,
                delta * s == -(m * s),
        ;
        assert(m * s <= m * dist) by (nonlinear_arith)
            requires
                m >= 0,
                s <= dist,
        ;
        vstd::arithmetic::div_mod::lemma_div_pos_is_pos(m * s, dist);
        vstd::arithmetic::div_mod::lemma_div_is_ordered(m * s, m * dist, dist);
        vstd::arithmetic::div_mod::lemma_div_multiples_vanish(m, dist);
    }
}

/// Composing one step with `n` further steps is `n + 1` steps.
proof fn lemma_iterate_shift(u: UnitBundle, n: nat)
    ensures
        spec_iterate_alone(u, (n + 1) as nat) == spec_iterate_alone(spec_step_alone(u), n),
    decreases n,
{
    if n == 0 {
        assert(spec_iterate_alone(u, 0) == u);
        assert(spec_iterate_alone(u, 1) == spec_step_alone(spec_iterate_alone(u, 0)));
        assert(spec_iterate_alone(spec_step_alone(u), 0) == spec_step_alone(u));
    } else {
        lemma_iterate_shift(u, (n - 1) as nat);
        assert(spec_iterate_alone(u, (n + 1) as nat) == spec_step_alone(
            spec_iterate_alone(u, n),
        ));
        assert(spec_iterate_alone(spec_step_alone(u), n) == spec_step_alone(
            spec_iterate_alone(spec_step_alone(u), (n - 1) as nat),
        ));
    }
}

/// Arrival liveness: a well-formed unit steering alone, at a speed of at
/// least five coordinate steps and at most the arrival radius, reaches its
/// destination after finitely many integration steps — some iterate has no
/// destination left. Together with `lemma_solo_stays_arrived` and
/// `lemma_arrival_clears_once`, the destination is cleared exactly once and
/// every later step is a no-op on it.
pub proof fn lemma_solo_arrival(u: UnitBundle)
    requires
        u.wf(),
        5 <= u.unit.speed <= ARRIVAL_BASE,
    ensures
        exists|n: nat| (#[trigger] spec_iterate_alone(u, n)).target.pos is None,
    decreases (match u.target.pos {
        Some(t) => sqrt_floor(u.pos.spec_dist_sq_xz(t)) + 1,
        None => 0,
    }),
{
    match u.target.pos {
        None => {
            assert(spec_iterate_alone(u, 0).target.pos is None);
        },
        Some(t) => {
            let d2 = u.pos.spec_dist_sq_xz(t);
            assert(d2 >= 0) by (nonlinear_arith)
                requires
                    d2 == (u.pos.x - t.x) * (u.pos.x - t.x) + (u.pos.z - t.z) * (u.pos.z - t.z),
            ;
            lemma_sqrt_floor_bracket(d2);
            let dist = sqrt_floor(d2);
            lemma_solo_step_progress(u);
            let u2 = spec_step_alone(u);
            if dist <= spec_arrival_threshold(0) {
                assert(spec_iterate_alone(u, 1) == spec_step_alone(spec_iterate_alone(u, 0)));
                assert(spec_iterate_alone(u, 1).target.pos is None);
            } else {
                assert(u2.target.pos == Some(t));
                let nd2 = u2.pos.spec_dist_sq_xz(t);
                assert(nd2 >= 0) by (nonlinear_arith)
                    requires
                        nd2 == (u2.pos.x - t.x) * (u2.pos.x - t.x) + (u2.pos.z - t.z) * (u2.pos.z
                            - t.z),
                ;
                lemma_sqrt_floor_bracket(nd2);
                assert(sqrt_floor(nd2) + 1 < dist + 1);
                lemma_solo_arrival(u2);
                let n2 = choose|n: nat| (#[trigger] spec_iterate_alone(u2, n)).target.pos is None;
                lemma_iterate_shift(u, n2);
                assert(spec_iterate_alone(u, (n2 + 1) as nat).target.pos is None);
            }
        },
    }
}

/// Once a solo iterate has arrived, every later iterate still has no
/// destination: arrival cannot re-trigger.
pub proof fn lemma_solo_stays_arrived(u: UnitBundle, n: nat, m: nat)
    requires
        spec_iterate_alone(u, n).target.pos is None,
        n <= m,
    ensures
        spec_iterate_alone(u, m).target.pos is None,
    decreases m,
{
    if m > n {
        lemma_solo_stays_arrived(u, n, (m - 1) as nat);
        let v = spec_iterate_alone(u, (m - 1) as nat);
        assert(spec_iterate_alone(u, m) == spec_step_alone(v));
        assert(spec_nearby_count(seq![v], 0, 0) == 0);
        assert(spec_sep_sum(seq![v], 0, 0) == (0int, 0int));
    }
}

/// Divide `delta * factor` by `den`, truncating toward zero, on magnitudes
/// small enough for the unsigned arithmetic to be exact.
fn quotient_toward_zero(delta: i64, factor: i64, den: i64) -> (r: i64)
    requires
        den > 0,
        0 <= factor <= 2_000_000_000,
        -4_000_000_000 <= delta <= 4_000_000_000,
        -(den as int) * 2_000_000_000 <= delta * factor <= (den as int) * 2_000_000_000,
    ensures
        r == div_toward_zero(delta * factor, den as int),
        -2_000_000_000 <= r <= 2_000_000_000,
{
    let mag: u64 = if delta < 0 {
        (-delta) as u64
    } else {
        delta as u64
    };
    proof {
        assert(mag * (factor as u64) <= 8_000_000_000_000_000_000) by (nonlinear_arith)
            requires
                0 <= mag <= 4_000_000_000,
                0 <= factor <= 2_000_000_000,
        ;
        assert(mag as int * factor == if delta >= 0 {
            delta * factor
        } else {
            -(delta * factor)
        }) by (nonlinear_arith)
            requires
                mag == if delta < 0 { -delta as int } else { delta as int },
        ;
        lemma_div_toward_zero_bound(delta * factor, den as int, 2_000_000_000);
    }
    let q: u64 = (mag * (factor as u64)) / (den as u64);
    if delta < 0 {
        -(q as i64)
    } else {
        q as i64
    }
}

impl World {
    /// Destination assignment: see `spec_set_target_for_selected`.
    pub fn set_target_for_selected(&mut self, input: &TickInput)
        ensures
            final(self)@ == spec_set_target_for_selected(old(self)@, *input),
    {
        if !(self.ability.ability == Ability::Select) || !input.right_pressed {
            return ;
        }
        let p = match &input.pick {
            Some(p) => *p,
            None => {
                return ;
            },
        };
        let n = self.units.len();
        let mut i: usize = 0;
        while i < n
            invariant
                n == self@.units.len(),
                i <= n,
                self@ == with_units(old(self)@, self@.units),
                forall|k: int|
                    0 <= k < i ==> self@.units[k] == (if old(self)@.units[k].selectable.selected {
                        UnitBundle {
                            target: TargetPosition { pos: Some(p.position) },
                            ..old(self)@.units[k]
                        }
                    } else {
                        old(self)@.units[k]
                    }),
                forall|k: int| i <= k < n ==> self@.units[k] == old(self)@.units[k],
            decreases n - i,
        {
            let mut u = self.units[i];
            if u.selectable.selected {
                u.target.update_to_vec(&p.position);
            }
            self.units[i] = u;
            i = i + 1;
        }
        proof {
            assert(final(self)@ =~= spec_set_target_for_selected(old(self)@, *input));
        }
    }

    /// Steering integration: see `spec_unit_movement`. Runs every tick,
    /// independent of mode. The all-pairs neighbour scan is quadratic in
    /// the unit count, acceptable at this scale (`MAX_UNITS` bounds it).
    pub fn unit_movement(&mut self)
        requires
            old(self)@.wf(),
        ensures
            final(self)@ == spec_unit_movement(old(self)@),
    {
        let n = self.units.len();
        let mut snapshot: Vec<UnitBundle> = Vec::new();
        let mut k: usize = 0;
        while k < n
            invariant
                n == self@.units.len(),
                k <= n,
                *self == *old(self),
                snapshot@ == self@.units.take(k as int),
            decreases n - k,
        {
            snapshot.push(self.units[k]);
            proof {
                assert(self@.units.take(k + 1) =~= self@.units.take(k as int).push(
                    self@.units[k as int],
                ));
            }
            k = k + 1;
        }
        proof {
            assert(snapshot@ =~= self@.units);
        }
        let mut i: usize = 0;
        while i < n
            invariant
                n == self@.units.len(),
                n == snapshot@.len(),
                i <= n,
                snapshot@ == old(self)@.units,
                old(self)@.wf(),
                self@ == with_units(old(self)@, self@.units),
                forall|k2: int| 0 <= k2 < i ==> self@.units[k2] == spec_step_unit(old(self)@.units, k2),
                forall|k2: int| i <= k2 < n ==> self@.units[k2] == old(self)@.units[k2],
            decreases n - i,
        {
            let me = snapshot[i];
            proof {
                assert(old(self)@.units[i as int].wf());
            }
            let mut nearby: i64 = 0;
            let mut sx: i64 = 0;
            let mut sz: i64 = 0;
            let mut j: usize = 0;
            while j < n
                invariant
                    n == snapshot@.len(),
                    j <= n,
                    i < n,
                    n <= crate::MAX_UNITS,
                    snapshot@ == old(self)@.units,
                    old(self)@.wf(),
                    me == snapshot@[i as int],
                    me.wf(),
                    nearby == spec_nearby_count(snapshot@, i as int, j as int),
                    0 <= nearby <= j,
                    sx == spec_sep_sum(snapshot@, i as int, j as int).0,
                    sz == spec_sep_sum(snapshot@, i as int, j as int).1,
                    -1000 * (j as int) <= sx <= 1000 * (j as int),
                    -1000 * (j as int) <= sz <= 1000 * (j as int),
                decreases n - j,
            {
                if j != i {
                    let other = snapshot[j];
                    proof {
                        assert(old(self)@.units[j as int].wf());
                    }
                    let dx: i64 = me.pos.x - other.pos.x;
                    let dz: i64 = me.pos.z - other.pos.z;
                    proof {
                        assert(0 <= dx * dx <= 4_000_000_000_000_000_000 && 0 <= dz * dz
                            <= 4_000_000_000_000_000_000) by (nonlinear_arith)
                            requires
                                -2_000_000_000 <= dx <= 2_000_000_000,
                                -2_000_000_000 <= dz <= 2_000_000_000,
                        ;
                    }
                    let d2: i64 = dx * dx + dz * dz;
                    let m: i64 = me.unit.social_distance + other.unit.social_distance;
                    proof {
                        assert(0 < m * m <= 4_000_000_000_000) by (nonlinear_arith)
                            requires
                                0 < m <= 2_000_000,
                        ;
                    }
                    if d2 < m * m {
                        nearby = nearby + 1;
                        let d64: u64 = isqrt(d2 as u64);
                        proof {
                            lemma_sqrt_floor_bracket(d2 as int);
                            assert(sqrt_floor(d2 as int) < m) by (nonlinear_arith)
                                requires
                                    0 < m,
                                    sqrt_floor(d2 as int) * sqrt_floor(d2 as int) <= d2,
                                    d2 < m * m,
                                    0 <= sqrt_floor(d2 as int),
                            ;
                        }
                        let d: i64 = d64 as i64;
                        if d > 0 {
                            proof {
                                assert(0 < d * m <= 4_000_000_000_000 && 0 <= (m - d) * SCALE
                                    <= 2_000_000_000) by (nonlinear_arith)
                                    requires
                                        0 < d < m <= 2_000_000,
                                        SCALE == 1000,
                                ;
                            }
                            let den: i64 = d * m;
                            let factor: i64 = (m - d) * SCALE;
                            proof {
                                assert(dx * dx <= d2 && dz * dz <= d2) by (nonlinear_arith)
                                    requires
                                        d2 == dx * dx + dz * dz,
                                        0 <= dx * dx,
                                        0 <= dz * dz,
                                ;
                                assert(-d <= dx <= d && -d <= dz <= d) by (nonlinear_arith)
                                    requires
                                        dx * dx <= d2,
                                        dz * dz <= d2,
                                        d2 < (d + 1) * (d + 1),
                                        0 <= d,
                                ;
                                assert(-(den as int) * SCALE <= dx * factor <= (den as int) * SCALE
                                    && -(den as int) * SCALE <= dz * factor <= (den as int)
                                    * SCALE) by (nonlinear_arith)
                                    requires
                                        -d <= dx <= d,
                                        -d <= dz <= d,
                                        0 <= factor,
                                        factor == (m - d) * SCALE,
                                        den == d * m,
                                        0 < d < m,
                                        SCALE == 1000,
                                ;
                            }
                            let cx = quotient_toward_zero(dx, factor, den);
                            let cz = quotient_toward_zero(dz, factor, den);
                            proof {
                                lemma_div_toward_zero_bound(dx * factor, den as int, 1000);
                                lemma_div_toward_zero_bound(dz * factor, den as int, 1000);
                                assert(-1000 <= cx <= 1000 && -1000 <= cz <= 1000);
                            }
                            sx = sx + cx;
                            sz = sz + cz;
                        }
                    }
                }
                j = j + 1;
            }
            let mut vx: i64 = sx;
            let mut vz: i64 = sz;
            let mut new_target: Option<Vec3Fx> = me.target.pos;
            match me.target.pos {
                Some(t) => {
                    proof {
                        assert(t.in_bounds());
                    }
                    let tdx: i64 = t.x - me.pos.x;
                    let tdz: i64 = t.z - me.pos.z;
                    proof {
                        assert(0 <= tdx * tdx <= 4_000_000_000_000_000_000 && 0 <= tdz * tdz
                            <= 4_000_000_000_000_000_000) by (nonlinear_arith)
                            requires
                                -2_000_000_000 <= tdx <= 2_000_000_000,
                                -2_000_000_000 <= tdz <= 2_000_000_000,
                        ;
                    }
                    let td2: i64 = tdx * tdx + tdz * tdz;
                    proof {
                        assert(me.pos.spec_dist_sq_xz(t) == td2) by (nonlinear_arith)
                            requires
                                tdx == t.x - me.pos.x,
                                tdz == t.z - me.pos.z,
                                td2 == tdx * tdx + tdz * tdz,
                                me.pos.spec_dist_sq_xz(t) == (me.pos.x - t.x) * (me.pos.x - t.x) + (
                                me.pos.z - t.z) * (me.pos.z - t.z),
                        ;
                    }
                    let dist64: u64 = isqrt(td2 as u64);
                    proof {
                        lemma_sqrt_floor_bracket(td2 as int);
                        assert(sqrt_floor(td2 as int) <= 3_000_000_000) by (nonlinear_arith)
                            requires
                                sqrt_floor(td2 as int) * sqrt_floor(td2 as int) <= td2,
                                td2 <= 8_000_000_000_000_000_000,
                                0 <= sqrt_floor(td2 as int),
                        ;
                    }
                    let dist: i64 = dist64 as i64;
                    let thr: i64 = ARRIVAL_BASE + NEIGHBOR_SLACK * nearby;
                    if dist > thr {
                        proof {
                            assert(tdx * tdx <= td2 && tdz * tdz <= td2) by (nonlinear_arith)
                                requires
                                    td2 == tdx * tdx + tdz * tdz,
                                    0 <= tdx * tdx,
                                    0 <= tdz * tdz,
                            ;
                            assert(-dist <= tdx <= dist && -dist <= tdz <= dist)
                                by (nonlinear_arith)
                                requires
                                    tdx * tdx <= td2,
                                    tdz * tdz <= td2,
                                    td2 < (dist + 1) * (dist + 1),
                                    0 <= dist,
                            ;
                            assert(-(dist as int) * SPEED_LIMIT <= tdx * me.unit.speed <= (
                            dist as int) * SPEED_LIMIT && -(dist as int) * SPEED_LIMIT <= tdz
                                * me.unit.speed <= (dist as int) * SPEED_LIMIT)
                                by (nonlinear_arith)
                                requires
                                    -dist <= tdx <= dist,
                                    -dist <= tdz <= dist,
                                    0 < me.unit.speed <= SPEED_LIMIT,
                                    SPEED_LIMIT == 1_000_000,
                                    0 < dist,
                            ;
                        }
                        let ax = quotient_toward_zero(tdx, me.unit.speed, dist);
                        let az = quotient_toward_zero(tdz, me.unit.speed, dist);
                        proof {
                            lemma_div_toward_zero_bound(
                                tdx * me.unit.speed,
                                dist as int,
                                SPEED_LIMIT as int,
                            );
                            lemma_div_toward_zero_bound(
                                tdz * me.unit.speed,
                                dist as int,
                                SPEED_LIMIT as int,
                            );
                        }
                        vx = vx + ax;
                        vz = vz + az;
                    } else {
                        new_target = None;
                    }
                },
                None => {},
            }
            let new_pos = Vec3Fx {
                x: clamp_coord(me.pos.x + vx),
                y: me.pos.y,
                z: clamp_coord(me.pos.z + vz),
            };
            let result = UnitBundle { pos: new_pos, target: TargetPosition { pos: new_target }, ..me };
            proof {
                assert(result == spec_step_unit(old(self)@.units, i as int));
            }
            self.units[i] = result;
            i = i + 1;
        }
        proof {
            assert(final(self)@ =~= spec_unit_movement(old(self)@));
        }
    }
}

} // verus!
