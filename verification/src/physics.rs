//! Circle contacts and the impulse law shared by collisions and tethers.

use vstd::prelude::*;
use crate::fixed::{
    lemma_mul_raw_monotone, lemma_mul_raw_shrinks, lemma_mul_raw_sign, lemma_square_raw_monotone,
    lemma_tdiv_remainder, mag, sat, tdiv, Coord, Fixed, SCALE, Time,
};
use crate::vec2::{lemma_normalize, Vec2};

verus! {

/// One half.
pub open spec fn spec_half() -> Fixed {
    Fixed { raw: 500_000 }
}

/// Two.
pub open spec fn spec_two() -> Fixed {
    Fixed { raw: 2_000_000 }
}

/// How far two circles reach into each other: the sum of the radii minus
/// the distance from `center_a` to `center_b`. They overlap where this is
/// positive.
pub open spec fn spec_penetration(
    center_a: Vec2,
    radius_a: Coord,
    center_b: Vec2,
    radius_b: Coord,
) -> Fixed {
    radius_a.spec_add(radius_b).spec_sub(center_b.spec_sub(center_a).spec_len())
}

/// Whether two circles overlap.
pub open spec fn overlapping(
    center_a: Vec2,
    radius_a: Coord,
    center_b: Vec2,
    radius_b: Coord,
) -> bool {
    spec_penetration(center_a, radius_a, center_b, radius_b).raw > 0
}

/// The momentum that the impulse law moves from the second body to the
/// first: the relative momentum `mass_b * velocity_b - mass_a * velocity_a`,
/// projected on the direction of `delta` and scaled by
/// `elasticity / 2 + 1 / 2`.
pub open spec fn spec_impulse(
    mass_a: Fixed,
    velocity_a: Vec2,
    mass_b: Fixed,
    velocity_b: Vec2,
    delta: Vec2,
    elasticity: Coord,
) -> Vec2 {
    let relative = velocity_b.spec_scale(mass_b).spec_sub(velocity_a.spec_scale(mass_a));
    let direction = delta.spec_normalize_or_zero();
    let factor = elasticity.spec_div(spec_two()).spec_add(spec_half());
    direction.spec_scale(direction.spec_dot(relative)).spec_scale(factor)
}

/// The two velocities after the impulse law: the first body gains the
/// impulse divided by its mass, the second loses the impulse divided by
/// its own.
pub open spec fn spec_collide_impulses(
    mass_a: Fixed,
    velocity_a: Vec2,
    mass_b: Fixed,
    velocity_b: Vec2,
    delta: Vec2,
    elasticity: Coord,
) -> (Vec2, Vec2) {
    let impulse = spec_impulse(mass_a, velocity_a, mass_b, velocity_b, delta, elasticity);
    (
        velocity_a.spec_add(impulse.spec_div(mass_a)),
        velocity_b.spec_sub(impulse.spec_div(mass_b)),
    )
}

/// Positions and velocities of two circles after one contact test.
pub struct Contact {
    pub hit: bool,
    pub position_a: Vec2,
    pub velocity_a: Vec2,
    pub position_b: Vec2,
    pub velocity_b: Vec2,
}

/// The outcome of testing two circles for contact. Where they overlap each
/// is moved away from the other by half the penetration along the line of
/// centres, and the impulse law with elasticity zero is applied along the
/// new line of centres. Where they do not, nothing changes.
pub open spec fn spec_collide(
    position_a: Vec2,
    velocity_a: Vec2,
    radius_a: Coord,
    mass_a: Fixed,
    position_b: Vec2,
    velocity_b: Vec2,
    radius_b: Coord,
    mass_b: Fixed,
) -> Contact {
    let delta = position_b.spec_sub(position_a);
    let penetration = spec_penetration(position_a, radius_a, position_b, radius_b);
    if penetration.raw > 0 {
        let shift = delta.spec_normalize_or_zero().spec_scale(penetration.spec_mul(spec_half()));
        let moved_a = position_a.spec_sub(shift);
        let moved_b = position_b.spec_add(shift);
        let after = spec_collide_impulses(
            mass_a,
            velocity_a,
            mass_b,
            velocity_b,
            moved_b.spec_sub(moved_a),
            Fixed { raw: 0 },
        );
        Contact {
            hit: true,
            position_a: moved_a,
            velocity_a: after.0,
            position_b: moved_b,
            velocity_b: after.1,
        }
    } else {
        Contact { hit: false, position_a, velocity_a, position_b, velocity_b }
    }
}

/// Along one axis, moving two points apart by a shift that points from the
/// first to the second never brings them closer.
pub proof fn lemma_axis_separates(a: int, b: int, shift: int)
    requires
        i64::MIN <= a <= i64::MAX,
        i64::MIN <= b <= i64::MAX,
        b - a >= 0 ==> shift >= 0,
        b - a <= 0 ==> shift <= 0,
    ensures
        (sat(a - shift) - sat(b + shift)) * (sat(a - shift) - sat(b + shift)) >= (a - b) * (a - b),
{
    let d = a - b;
    let u = sat(a - shift) - sat(b + shift);
    if d >= 0 {
        assert(u * u >= d * d) by (nonlinear_arith)
            requires
                u >= d,
                d >= 0,
        ;
    } else {
        assert(u * u >= d * d) by (nonlinear_arith)
            requires
                u <= d,
                d <= 0,
        ;
    }
}

/// Resolving a contact never brings the two centres closer: the distance
/// between them after [`collide`] is at least the distance before.
pub proof fn lemma_collide_separates(
    position_a: Vec2,
    velocity_a: Vec2,
    radius_a: Coord,
    mass_a: Fixed,
    position_b: Vec2,
    velocity_b: Vec2,
    radius_b: Coord,
    mass_b: Fixed,
)
    ensures
        ({
            let c = spec_collide(
                position_a,
                velocity_a,
                radius_a,
                mass_a,
                position_b,
                velocity_b,
                radius_b,
                mass_b,
            );
            c.position_a.dist_sq(c.position_b) >= position_a.dist_sq(position_b)
        }),
{
    let delta = position_b.spec_sub(position_a);
    let depth = spec_penetration(position_a, radius_a, position_b, radius_b);
    if depth.raw > 0 {
        let direction = delta.spec_normalize_or_zero();
        let half = depth.spec_mul(spec_half());
        let shift = direction.spec_scale(half);
        lemma_normalize(delta);
        lemma_mul_raw_sign(depth.raw as int, 500_000);
        lemma_mul_raw_sign(direction.x.raw as int, half.raw as int);
        lemma_mul_raw_sign(direction.y.raw as int, half.raw as int);
        lemma_axis_separates(position_a.x.raw as int, position_b.x.raw as int, shift.x.raw as int);
        lemma_axis_separates(position_a.y.raw as int, position_b.y.raw as int, shift.y.raw as int);
    }
}

/// Total momentum of two bodies along the x axis, in squared raw units.
pub open spec fn momentum_x(
    mass_a: Fixed,
    velocity_a: Vec2,
    mass_b: Fixed,
    velocity_b: Vec2,
) -> int {
    mass_a.raw * velocity_a.x.raw + mass_b.raw * velocity_b.x.raw
}

/// Total momentum of two bodies along the y axis, in squared raw units.
pub open spec fn momentum_y(
    mass_a: Fixed,
    velocity_a: Vec2,
    mass_b: Fixed,
    velocity_b: Vec2,
) -> int {
    mass_a.raw * velocity_a.y.raw + mass_b.raw * velocity_b.y.raw
}

/// One axis of the impulse law: what the first body gains in momentum the
/// second loses, up to what the two divisions round away.
pub proof fn lemma_axis_momentum(ma: int, va: int, mb: int, vb: int, j: int)
    requires
        ma != 0,
        mb != 0,
    ensures
        mag(
            (ma * (va + tdiv(j * (SCALE as int), ma)) + mb * (vb - tdiv(j * (SCALE as int), mb)))
                - (ma * va + mb * vb),
        ) < mag(ma) + mag(mb),
{
    let n = j * (SCALE as int);
    let qa = tdiv(n, ma);
    let qb = tdiv(n, mb);
    lemma_tdiv_remainder(n, ma);
    lemma_tdiv_remainder(n, mb);
    assert((ma * (va + qa) + mb * (vb - qb)) - (ma * va + mb * vb) == (n - mb * qb) - (n - ma * qa))
        by (nonlinear_arith);
}

/// The impulse law conserves momentum: where no intermediate result was
/// clamped, the total momentum of the two bodies along each axis changes
/// by less than the rounding of the two divisions by the masses, that is by
/// less than `|mass_a| + |mass_b|` squared raw units.
pub proof fn lemma_impulse_conserves_momentum(
    mass_a: Fixed,
    velocity_a: Vec2,
    mass_b: Fixed,
    velocity_b: Vec2,
    delta: Vec2,
    elasticity: Coord,
)
    requires
        mass_a.raw != 0,
        mass_b.raw != 0,
        spec_impulse(mass_a, velocity_a, mass_b, velocity_b, delta, elasticity).spec_div(
            mass_a,
        ).interior(),
        spec_impulse(mass_a, velocity_a, mass_b, velocity_b, delta, elasticity).spec_div(
            mass_b,
        ).interior(),
        spec_collide_impulses(
            mass_a,
            velocity_a,
            mass_b,
            velocity_b,
            delta,
            elasticity,
        ).0.interior(),
        spec_collide_impulses(
            mass_a,
            velocity_a,
            mass_b,
            velocity_b,
            delta,
            elasticity,
        ).1.interior(),
    ensures
        ({
            let after = spec_collide_impulses(
                mass_a,
                velocity_a,
                mass_b,
                velocity_b,
                delta,
                elasticity,
            );
            &&& mag(
                momentum_x(mass_a, after.0, mass_b, after.1) - momentum_x(
                    mass_a,
                    velocity_a,
                    mass_b,
                    velocity_b,
                ),
            ) < mag(mass_a.raw as int) + mag(mass_b.raw as int)
            &&& mag(
                momentum_y(mass_a, after.0, mass_b, after.1) - momentum_y(
                    mass_a,
                    velocity_a,
                    mass_b,
                    velocity_b,
                ),
            ) < mag(mass_a.raw as int) + mag(mass_b.raw as int)
        }),
{
    let j = spec_impulse(mass_a, velocity_a, mass_b, velocity_b, delta, elasticity);
    lemma_axis_momentum(
        mass_a.raw as int,
        velocity_a.x.raw as int,
        mass_b.raw as int,
        velocity_b.x.raw as int,
        j.x.raw as int,
    );
    lemma_axis_momentum(
        mass_a.raw as int,
        velocity_a.y.raw as int,
        mass_b.raw as int,
        velocity_b.y.raw as int,
        j.y.raw as int,
    );
}

/// Resolving a contact conserves momentum: where two circles overlap and
/// no intermediate result of the impulse was clamped, the total momentum of
/// the two along each axis changes by less than `|mass_a| + |mass_b|`
/// squared raw units, which is what the two divisions by the masses round
/// away.
pub proof fn lemma_collide_conserves_momentum(
    position_a: Vec2,
    velocity_a: Vec2,
    radius_a: Coord,
    mass_a: Fixed,
    position_b: Vec2,
    velocity_b: Vec2,
    radius_b: Coord,
    mass_b: Fixed,
)
    requires
        mass_a.raw != 0,
        mass_b.raw != 0,
        ({
            let c = spec_collide(
                position_a,
                velocity_a,
                radius_a,
                mass_a,
                position_b,
                velocity_b,
                radius_b,
                mass_b,
            );
            let j = spec_impulse(
                mass_a,
                velocity_a,
                mass_b,
                velocity_b,
                c.position_b.spec_sub(c.position_a),
                Fixed { raw: 0 },
            );
            &&& c.hit
            &&& j.spec_div(mass_a).interior()
            &&& j.spec_div(mass_b).interior()
            &&& c.velocity_a.interior()
            &&& c.velocity_b.interior()
        }),
    ensures
        ({
            let c = spec_collide(
                position_a,
                velocity_a,
                radius_a,
                mass_a,
                position_b,
                velocity_b,
                radius_b,
                mass_b,
            );
            &&& mag(
                momentum_x(mass_a, c.velocity_a, mass_b, c.velocity_b) - momentum_x(
                    mass_a,
                    velocity_a,
                    mass_b,
                    velocity_b,
                ),
            ) < mag(mass_a.raw as int) + mag(mass_b.raw as int)
            &&& mag(
                momentum_y(mass_a, c.velocity_a, mass_b, c.velocity_b) - momentum_y(
                    mass_a,
                    velocity_a,
                    mass_b,
                    velocity_b,
                ),
            ) < mag(mass_a.raw as int) + mag(mass_b.raw as int)
        }),
{
    let c = spec_collide(
        position_a,
        velocity_a,
        radius_a,
        mass_a,
        position_b,
        velocity_b,
        radius_b,
        mass_b,
    );
    lemma_impulse_conserves_momentum(
        mass_a,
        velocity_a,
        mass_b,
        velocity_b,
        c.position_b.spec_sub(c.position_a),
        Fixed { raw: 0 },
    );
}

/// What quadratic drag takes off the unit factor in one step: the squared
/// speed times the drag coefficient times the elapsed time.
pub open spec fn spec_drag_loss(velocity: Vec2, drag: Fixed, dt: Time) -> Fixed {
    velocity.spec_len_sqr().spec_mul(drag).spec_mul(dt)
}

/// The velocity after one step of quadratic drag: multiplied by one minus
/// the drag loss.
pub open spec fn spec_damp(velocity: Vec2, drag: Fixed, dt: Time) -> Vec2 {
    velocity.spec_scale(Fixed::spec_one().spec_sub(spec_drag_loss(velocity, drag, dt)))
}

/// The velocity after `steps` steps of drag with no other force.
pub open spec fn spec_damp_steps(velocity: Vec2, drag: Fixed, dt: Time, steps: nat) -> Vec2
    decreases steps,
{
    if steps == 0 {
        velocity
    } else {
        spec_damp(spec_damp_steps(velocity, drag, dt, (steps - 1) as nat), drag, dt)
    }
}

/// A slower velocity loses no more to drag than a faster one, and the loss
/// is never negative.
pub proof fn lemma_drag_loss_monotone(slow: Vec2, fast: Vec2, drag: Fixed, dt: Time)
    requires
        drag.raw >= 0,
        dt.raw >= 0,
        mag(slow.x.raw as int) <= mag(fast.x.raw as int),
        mag(slow.y.raw as int) <= mag(fast.y.raw as int),
    ensures
        0 <= spec_drag_loss(slow, drag, dt).raw <= spec_drag_loss(fast, drag, dt).raw,
{
    lemma_square_raw_monotone(slow.x.raw as int, fast.x.raw as int);
    lemma_square_raw_monotone(slow.y.raw as int, fast.y.raw as int);
    let s = slow.spec_len_sqr();
    let f = fast.spec_len_sqr();
    assert(0 <= s.raw <= f.raw);
    lemma_mul_raw_monotone(s.raw as int, f.raw as int, drag.raw as int);
    lemma_mul_raw_sign(s.raw as int, drag.raw as int);
    let sd = s.spec_mul(drag);
    let fd = f.spec_mul(drag);
    assert(0 <= sd.raw <= fd.raw);
    lemma_mul_raw_monotone(sd.raw as int, fd.raw as int, dt.raw as int);
    lemma_mul_raw_sign(sd.raw as int, dt.raw as int);
}

/// One step of drag whose loss is between zero and two shrinks each
/// component of the velocity, and so the speed.
pub proof fn lemma_damp_slows(velocity: Vec2, drag: Fixed, dt: Time)
    requires
        0 <= spec_drag_loss(velocity, drag, dt).raw <= 2 * SCALE,
    ensures
        mag(spec_damp(velocity, drag, dt).x.raw as int) <= mag(velocity.x.raw as int),
        mag(spec_damp(velocity, drag, dt).y.raw as int) <= mag(velocity.y.raw as int),
        spec_damp(velocity, drag, dt).norm_sq() <= velocity.norm_sq(),
{
    let factor = Fixed::spec_one().spec_sub(spec_drag_loss(velocity, drag, dt));
    lemma_mul_raw_shrinks(velocity.x.raw as int, factor.raw as int);
    lemma_mul_raw_shrinks(velocity.y.raw as int, factor.raw as int);
    let after = spec_damp(velocity, drag, dt);
    let ax = mag(after.x.raw as int);
    let ay = mag(after.y.raw as int);
    let bx = mag(velocity.x.raw as int);
    let by = mag(velocity.y.raw as int);
    assert(after.x.raw * after.x.raw <= velocity.x.raw * velocity.x.raw) by (nonlinear_arith)
        requires
            ax == mag(after.x.raw as int),
            bx == mag(velocity.x.raw as int),
            ax <= bx,
    ;
    assert(after.y.raw * after.y.raw <= velocity.y.raw * velocity.y.raw) by (nonlinear_arith)
        requires
            ay == mag(after.y.raw as int),
            by == mag(velocity.y.raw as int),
            ay <= by,
    ;
}

/// Drag never speeds a body up. With a non-negative drag coefficient and
/// time step, and a first loss of at most two, every further step under no
/// other force leaves the speed where it was or lower, and the loss stays
/// within the same bound.
pub proof fn lemma_drag_never_speeds_up(velocity: Vec2, drag: Fixed, dt: Time, steps: nat)
    requires
        drag.raw >= 0,
        dt.raw >= 0,
        spec_drag_loss(velocity, drag, dt).raw <= 2 * SCALE,
    ensures
        spec_damp_steps(velocity, drag, dt, steps + 1).norm_sq() <= spec_damp_steps(
            velocity,
            drag,
            dt,
            steps,
        ).norm_sq(),
        spec_damp_steps(velocity, drag, dt, steps).norm_sq() <= velocity.norm_sq(),
        mag(spec_damp_steps(velocity, drag, dt, steps).x.raw as int) <= mag(velocity.x.raw as int),
        mag(spec_damp_steps(velocity, drag, dt, steps).y.raw as int) <= mag(velocity.y.raw as int),
    decreases steps,
{
    let now = spec_damp_steps(velocity, drag, dt, steps);
    if steps > 0 {
        let before = spec_damp_steps(velocity, drag, dt, (steps - 1) as nat);
        lemma_drag_never_speeds_up(velocity, drag, dt, (steps - 1) as nat);
        lemma_drag_loss_monotone(before, velocity, drag, dt);
        lemma_damp_slows(before, drag, dt);
        assert(now == spec_damp(before, drag, dt));
    }
    lemma_drag_loss_monotone(now, velocity, drag, dt);
    lemma_damp_slows(now, drag, dt);
    assert(spec_damp_steps(velocity, drag, dt, steps + 1) == spec_damp(now, drag, dt));
}

/// Penetration of two circles.
pub fn penetration(center_a: Vec2, radius_a: Coord, center_b: Vec2, radius_b: Coord) -> (r: Fixed)
    ensures
        r == spec_penetration(center_a, radius_a, center_b, radius_b),
{
    radius_a.add(radius_b).sub(center_b.sub(center_a).len())
}

/// Applies the impulse law to two bodies along `delta`.
pub fn collide_impulses(
    mass_a: Fixed,
    velocity_a: Vec2,
    mass_b: Fixed,
    velocity_b: Vec2,
    delta: Vec2,
    elasticity: Coord,
) -> (r: (Vec2, Vec2))
    requires
        mass_a.raw != 0,
        mass_b.raw != 0,
    ensures
        r == spec_collide_impulses(mass_a, velocity_a, mass_b, velocity_b, delta, elasticity),
{
    let relative = velocity_b.scale(mass_b).sub(velocity_a.scale(mass_a));
    let direction = delta.normalize_or_zero();
    let factor = elasticity.div(Fixed::from_raw(2_000_000)).add(Fixed::from_raw(500_000));
    let impulse = direction.scale(direction.dot(relative)).scale(factor);
    (velocity_a.add(impulse.div(mass_a)), velocity_b.sub(impulse.div(mass_b)))
}

/// Tests two circles for contact and resolves it. Returns whether they
/// overlapped.
pub fn collide(
    position_a: &mut Vec2,
    velocity_a: &mut Vec2,
    radius_a: Coord,
    mass_a: Fixed,
    position_b: &mut Vec2,
    velocity_b: &mut Vec2,
    radius_b: Coord,
    mass_b: Fixed,
) -> (hit: bool)
    requires
        mass_a.raw != 0,
        mass_b.raw != 0,
    ensures
        ({
            let c = spec_collide(
                *old(position_a),
                *old(velocity_a),
                radius_a,
                mass_a,
                *old(position_b),
                *old(velocity_b),
                radius_b,
                mass_b,
            );
            &&& hit == c.hit
            &&& *final(position_a) == c.position_a
            &&& *final(velocity_a) == c.velocity_a
            &&& *final(position_b) == c.position_b
            &&& *final(velocity_b) == c.velocity_b
        }),
{
    let delta = position_b.sub(*position_a);
    let depth = penetration(*position_a, radius_a, *position_b, radius_b);
    if depth.raw > 0 {
        let shift = delta.normalize_or_zero().scale(depth.mul(Fixed::from_raw(500_000)));
        *position_a = position_a.sub(shift);
        *position_b = position_b.add(shift);
        let after = collide_impulses(
            mass_a,
            *velocity_a,
            mass_b,
            *velocity_b,
            position_b.sub(*position_a),
            Fixed::zero(),
        );
        *velocity_a = after.0;
        *velocity_b = after.1;
        true
    } else {
        false
    }
}

/// One step of quadratic drag on a velocity.
pub fn damp(velocity: Vec2, drag: Fixed, dt: Time) -> (r: Vec2)
    ensures
        r == spec_damp(velocity, drag, dt),
{
    velocity.scale(Fixed::one().sub(velocity.len_sqr().mul(drag).mul(dt)))
}

} // verus!
