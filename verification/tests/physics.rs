use balloon_sim::fixed::Fixed;
use balloon_sim::physics::{collide, collide_impulses, damp, penetration};
use balloon_sim::vec2::Vec2;

fn fx(x: f64) -> Fixed {
    Fixed::from_raw((x * 1e6).round() as i64)
}

fn v(x: f64, y: f64) -> Vec2 {
    Vec2::new(fx(x), fx(y))
}

#[test]
fn penetration_is_radii_minus_distance() {
    assert_eq!(penetration(v(0.0, 0.0), fx(1.0), v(1.5, 0.0), fx(1.0)), fx(0.5));
    assert_eq!(penetration(v(0.0, 0.0), fx(1.0), v(3.0, 4.0), fx(1.0)), fx(-3.0));
    assert_eq!(penetration(v(0.0, 0.0), fx(1.0), v(2.0, 0.0), fx(1.0)), fx(0.0));
    assert_eq!(penetration(v(1.0, 1.0), fx(0.25), v(1.0, 1.0), fx(0.3)), fx(0.55));
}

#[test]
fn impulse_between_equal_masses_head_on_stops_both() {
    let (a, b) =
        collide_impulses(fx(1.0), v(1.0, 0.0), fx(1.0), v(-1.0, 0.0), v(1.0, 0.0), fx(0.0));
    assert_eq!(a, v(0.0, 0.0));
    assert_eq!(b, v(0.0, 0.0));
}

#[test]
fn impulse_leaves_the_tangential_velocity() {
    let (a, b) =
        collide_impulses(fx(1.0), v(1.0, 2.0), fx(1.0), v(-1.0, 0.0), v(1.0, 0.0), fx(0.0));
    assert_eq!(a, v(0.0, 2.0));
    assert_eq!(b, v(0.0, 0.0));
}

#[test]
fn impulse_with_elasticity_one_swaps_equal_masses() {
    let (a, b) =
        collide_impulses(fx(1.0), v(1.0, 0.0), fx(1.0), v(-1.0, 0.0), v(1.0, 0.0), fx(1.0));
    assert_eq!(a, v(-1.0, 0.0));
    assert_eq!(b, v(1.0, 0.0));
}

#[test]
fn impulse_along_a_slanted_direction_with_unequal_masses() {
    let (a, b) =
        collide_impulses(fx(2.0), v(1.0, 0.0), fx(1.0), v(-1.0, 0.0), v(3.0, 4.0), fx(0.0));
    assert_eq!(a, v(0.73, -0.36));
    assert_eq!(b, v(-0.46, 0.72));
}

#[test]
fn impulse_conserves_momentum() {
    let (ma, mb) = (fx(2.0), fx(1.0));
    let (va, vb) = (v(1.0, 0.0), v(-1.0, 0.0));
    let (a, b) = collide_impulses(ma, va, mb, vb, v(3.0, 4.0), fx(0.0));
    let before_x = ma.raw as i128 * va.x.raw as i128 + mb.raw as i128 * vb.x.raw as i128;
    let after_x = ma.raw as i128 * a.x.raw as i128 + mb.raw as i128 * b.x.raw as i128;
    let before_y = ma.raw as i128 * va.y.raw as i128 + mb.raw as i128 * vb.y.raw as i128;
    let after_y = ma.raw as i128 * a.y.raw as i128 + mb.raw as i128 * b.y.raw as i128;
    let slack = (ma.raw + mb.raw) as i128;
    assert!((after_x - before_x).abs() < slack);
    assert!((after_y - before_y).abs() < slack);
}

#[test]
fn impulse_along_no_direction_does_nothing() {
    let (a, b) =
        collide_impulses(fx(1.0), v(1.0, 2.0), fx(3.0), v(-1.0, 5.0), v(0.0, 0.0), fx(0.0));
    assert_eq!(a, v(1.0, 2.0));
    assert_eq!(b, v(-1.0, 5.0));
}

#[test]
fn overlapping_circles_are_pushed_apart_and_stopped() {
    let mut pa = v(0.0, 0.0);
    let mut va = v(1.0, 0.0);
    let mut pb = v(1.0, 0.0);
    let mut vb = v(-1.0, 0.0);
    let hit = collide(&mut pa, &mut va, fx(1.0), fx(1.0), &mut pb, &mut vb, fx(1.0), fx(1.0));
    assert!(hit);
    assert_eq!(pa, v(-0.5, 0.0));
    assert_eq!(pb, v(1.5, 0.0));
    assert_eq!(va, v(0.0, 0.0));
    assert_eq!(vb, v(0.0, 0.0));
}

#[test]
fn overlapping_circles_on_a_diagonal() {
    let mut pa = v(0.0, 0.0);
    let mut va = v(0.0, 0.0);
    let mut pb = v(1.0, 1.0);
    let mut vb = v(0.0, 0.0);
    let hit = collide(&mut pa, &mut va, fx(1.0), fx(1.0), &mut pb, &mut vb, fx(1.0), fx(2.0));
    assert!(hit);
    assert_eq!(pa, Vec2::new(Fixed::from_raw(-207_106), Fixed::from_raw(-207_106)));
    assert_eq!(pb, Vec2::new(Fixed::from_raw(1_207_106), Fixed::from_raw(1_207_106)));
    assert_eq!(va, v(0.0, 0.0));
    assert_eq!(vb, v(0.0, 0.0));
}

#[test]
fn circles_apart_are_left_alone() {
    let mut pa = v(0.0, 0.0);
    let mut va = v(1.0, 0.0);
    let mut pb = v(2.0, 0.0);
    let mut vb = v(-1.0, 0.0);
    let hit = collide(&mut pa, &mut va, fx(1.0), fx(1.0), &mut pb, &mut vb, fx(1.0), fx(1.0));
    assert!(!hit);
    assert_eq!(pa, v(0.0, 0.0));
    assert_eq!(pb, v(2.0, 0.0));
    assert_eq!(va, v(1.0, 0.0));
    assert_eq!(vb, v(-1.0, 0.0));
}

#[test]
fn circles_on_one_spot_overlap_but_cannot_be_parted() {
    let mut pa = v(1.0, 1.0);
    let mut va = v(1.0, 0.0);
    let mut pb = v(1.0, 1.0);
    let mut vb = v(0.0, 1.0);
    let hit = collide(&mut pa, &mut va, fx(1.0), fx(1.0), &mut pb, &mut vb, fx(1.0), fx(1.0));
    assert!(hit);
    assert_eq!(pa, v(1.0, 1.0));
    assert_eq!(pb, v(1.0, 1.0));
    assert_eq!(va, v(1.0, 0.0));
    assert_eq!(vb, v(0.0, 1.0));
}

#[test]
fn resolving_a_contact_never_brings_the_centres_closer() {
    let mut k: i64 = 1;
    while k < 2_000_000 {
        let mut pa = Vec2::new(Fixed::from_raw(k), Fixed::from_raw(-k * 3));
        let mut va = v(0.5, -0.25);
        let mut pb = Vec2::new(Fixed::from_raw(k / 2 + 7), Fixed::from_raw(k / 5));
        let mut vb = v(-0.5, 1.0);
        let before = pa.sub(pb).norm_sq_raw();
        collide(&mut pa, &mut va, fx(1.0), fx(1.0), &mut pb, &mut vb, fx(1.5), fx(2.0));
        assert!(pa.sub(pb).norm_sq_raw() >= before);
        k = k * 3 + 1;
    }
}

#[test]
fn drag_takes_the_squared_speed_times_coefficient_times_time() {
    assert_eq!(damp(v(2.0, 0.0), fx(0.1), fx(0.5)), v(1.6, 0.0));
    assert_eq!(damp(v(0.0, -2.0), fx(0.1), fx(0.5)), v(0.0, -1.6));
    assert_eq!(damp(v(3.0, 4.0), fx(0.01), fx(1.0)), v(2.25, 3.0));
    assert_eq!(damp(v(0.0, 0.0), fx(0.1), fx(0.5)), v(0.0, 0.0));
    assert_eq!(damp(v(2.0, 0.0), fx(0.0), fx(0.5)), v(2.0, 0.0));
}

#[test]
fn drag_never_speeds_up_within_its_bound() {
    let mut velocity = v(3.0, -4.0);
    let mut steps = 0;
    while steps < 200 {
        let next = damp(velocity, fx(0.05), fx(0.1));
        assert!(next.norm_sq_raw() <= velocity.norm_sq_raw());
        velocity = next;
        steps += 1;
    }
    assert!(velocity.norm_sq_raw() < v(3.0, -4.0).norm_sq_raw());
}

#[test]
fn drag_beyond_its_bound_overshoots() {
    assert_eq!(damp(v(10.0, 0.0), fx(1.0), fx(1.0)), v(-990.0, 0.0));
}
