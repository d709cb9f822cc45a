use balloon_sim::fixed::Fixed;
use balloon_sim::vec2::{ceil_root, rescale_raw, Vec2};

fn fx(x: f64) -> Fixed {
    Fixed::from_raw((x * 1e6).round() as i64)
}

fn v(x: f64, y: f64) -> Vec2 {
    Vec2::new(fx(x), fx(y))
}

#[test]
fn componentwise_arithmetic() {
    assert_eq!(v(1.0, 2.0).add(v(3.0, -4.0)), v(4.0, -2.0));
    assert_eq!(v(1.0, 2.0).sub(v(3.0, -4.0)), v(-2.0, 6.0));
    assert_eq!(v(1.0, -2.0).neg(), v(-1.0, 2.0));
    assert_eq!(v(1.0, -2.0).scale(fx(2.5)), v(2.5, -5.0));
    assert_eq!(v(1.0, -2.0).div(fx(4.0)), v(0.25, -0.5));
    assert_eq!(Vec2::zero(), v(0.0, 0.0));
}

#[test]
fn dot_product_and_squared_length() {
    assert_eq!(v(1.0, 2.0).dot(v(3.0, 4.0)), fx(11.0));
    assert_eq!(v(3.0, 4.0).len_sqr(), fx(25.0));
    assert_eq!(v(3.0, 4.0).norm_sq_raw(), 25_000_000_000_000);
    assert_eq!(v(-3.0, -4.0).norm_sq_raw(), 25_000_000_000_000);
}

#[test]
fn length_rounds_down() {
    assert_eq!(v(3.0, 4.0).len(), fx(5.0));
    assert_eq!(v(-3.0, 4.0).len(), fx(5.0));
    assert_eq!(v(1.0, 1.0).len(), Fixed::from_raw(1_414_213));
    assert_eq!(v(0.0, 0.0).len(), fx(0.0));
}

#[test]
fn length_of_the_longest_vector_saturates() {
    let far = Vec2::new(Fixed::from_raw(i64::MIN), Fixed::from_raw(i64::MIN));
    assert_eq!(far.len(), Fixed::from_raw(i64::MAX));
}

#[test]
fn normalizing_gives_a_vector_of_length_one_or_zero() {
    assert_eq!(v(3.0, 4.0).normalize_or_zero(), v(0.6, 0.8));
    assert_eq!(v(-3.0, 4.0).normalize_or_zero(), v(-0.6, 0.8));
    assert_eq!(v(0.0, -7.0).normalize_or_zero(), v(0.0, -1.0));
    assert_eq!(v(0.0, 0.0).normalize_or_zero(), v(0.0, 0.0));
    assert_eq!(
        v(1.0, 1.0).normalize_or_zero(),
        Vec2::new(Fixed::from_raw(707_106), Fixed::from_raw(707_106))
    );
}

#[test]
fn normalizing_never_gives_more_than_length_one() {
    let tiny = Vec2::new(Fixed::from_raw(1), Fixed::from_raw(1));
    let unit = tiny.normalize_or_zero();
    assert_eq!(unit, Vec2::new(Fixed::from_raw(500_000), Fixed::from_raw(500_000)));
    let far = Vec2::new(Fixed::from_raw(i64::MIN), Fixed::from_raw(i64::MAX));
    let unit = far.normalize_or_zero();
    assert!(unit.norm_sq_raw() <= 1_000_000_000_000);
    assert!(unit.x.raw < 0 && unit.y.raw > 0);
}

#[test]
fn clamping_the_length() {
    assert_eq!(v(3.0, 4.0).clamp_len(fx(1.0)), v(0.6, 0.8));
    assert_eq!(v(3.0, 4.0).clamp_len(fx(10.0)), v(3.0, 4.0));
    assert_eq!(v(3.0, 4.0).clamp_len(fx(5.0)), v(3.0, 4.0));
    assert_eq!(v(3.0, 4.0).clamp_len(fx(2.5)), v(1.5, 2.0));
    assert_eq!(v(3.0, 4.0).clamp_len(fx(0.0)), v(0.0, 0.0));
    assert_eq!(v(3.0, 4.0).clamp_len(fx(-1.0)), v(0.0, 0.0));
    assert_eq!(v(0.0, 0.0).clamp_len(fx(1.0)), v(0.0, 0.0));
}

#[test]
fn a_clamped_vector_is_never_longer_than_the_bound() {
    let bound = fx(1.0);
    let mut x: i64 = 1;
    while x < 4_000_000_000_000 {
        let mut y: i64 = -3;
        while y > -4_000_000_000_000 {
            let c = Vec2::new(Fixed::from_raw(x), Fixed::from_raw(y)).clamp_len(bound);
            assert!(c.norm_sq_raw() <= 1_000_000_000_000);
            assert!(c.x.raw >= 0 && c.y.raw <= 0);
            y = y * 11 - 1;
        }
        x = x * 13 + 1;
    }
}

#[test]
fn square_root_rounded_up() {
    assert_eq!(ceil_root(0), 0);
    assert_eq!(ceil_root(1), 1);
    assert_eq!(ceil_root(2), 2);
    assert_eq!(ceil_root(4), 2);
    assert_eq!(ceil_root(5), 3);
    assert_eq!(ceil_root(u128::MAX), 1u128 << 64);
}

#[test]
fn rescaling_a_component() {
    assert_eq!(rescale_raw(3_000_000, 1_000_000, 5_000_000), 600_000);
    assert_eq!(rescale_raw(-3_000_000, 1_000_000, 5_000_000), -600_000);
    assert_eq!(rescale_raw(1, 1, 2), 0);
    assert_eq!(rescale_raw(-1, 1, 2), 0);
}
