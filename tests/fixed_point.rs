use pegdrop::fixed::{Fixed, Vec2};

fn raw(r: i32) -> Fixed {
    Fixed::from_raw(r)
}

#[test]
fn new_shifts_integer() {
    assert_eq!(Fixed::new(3).raw, 768);
    assert_eq!(Fixed::new(-2).raw, -512);
}

#[test]
fn mul_keeps_eight_fraction_bits() {
    assert_eq!(Fixed::new(3).mul(raw(128)).raw, 384);
    assert_eq!(raw(-384).mul(raw(128)).raw, -192);
    assert_eq!(raw(-1).mul(raw(1)).raw, -1);
    assert_eq!(Fixed::new(-5).mul(Fixed::new(7)).raw, -35 * 256);
}

#[test]
fn div_truncates_towards_zero() {
    assert_eq!(Fixed::new(1).div(Fixed::new(4)).raw, 64);
    assert_eq!(raw(-1).div(raw(512)).raw, 0);
    assert_eq!(Fixed::new(-3).div(Fixed::new(2)).raw, -384);
}

#[test]
fn sqrt_of_squares() {
    assert_eq!(Fixed::new(16).sqrt().raw, 1024);
    assert_eq!(raw(576).sqrt().raw, 384);
    assert_eq!(raw(0).sqrt().raw, 0);
    assert_eq!(raw(6400).sqrt().raw, 1280);
}

#[test]
fn round_half_up() {
    assert_eq!(raw(1152).round(), 5);
    assert_eq!(raw(-640).round(), -2);
    assert_eq!(raw(2496).round(), 10);
    assert_eq!(raw(51).round(), 0);
}

#[test]
fn clamp_and_abs() {
    assert_eq!(raw(5).clamp(raw(0), raw(3)).raw, 3);
    assert_eq!(raw(-5).clamp(raw(0), raw(3)).raw, 0);
    assert_eq!(raw(2).clamp(raw(0), raw(3)).raw, 2);
    assert_eq!(raw(-7).abs().raw, 7);
}

#[test]
fn vector_products() {
    let a = Vec2::new(Fixed::new(3), Fixed::new(4));
    assert_eq!(a.magnitude_squared().raw, 25 * 256);
    let b = Vec2::new(Fixed::new(-1), Fixed::new(2));
    assert_eq!(a.dot(b).raw, 5 * 256);
    assert_eq!(a.sub(b), Vec2::new(Fixed::new(4), Fixed::new(2)));
    assert_eq!(a.scale(raw(128)), Vec2::new(raw(384), Fixed::new(2)));
    assert_eq!(a.div(Fixed::new(2)), Vec2::new(raw(384), Fixed::new(2)));
}
