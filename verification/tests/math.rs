use bevy_light_2d::math::{distance_squared, isqrt, saturating_mul_fixed, LinearRgba, Vec2, ONE};

#[test]
fn isqrt_of_small_numbers() {
    let expected: [(u128, u64); 11] = [
        (0, 0),
        (1, 1),
        (2, 1),
        (3, 1),
        (4, 2),
        (8, 2),
        (9, 3),
        (24, 4),
        (25, 5),
        (26, 5),
        (99, 9),
    ];
    for (n, root) in expected {
        assert_eq!(isqrt(n), root);
    }
}

#[test]
fn isqrt_of_the_largest_number() {
    assert_eq!(isqrt(u128::MAX), u64::MAX);
    assert_eq!(isqrt(1u128 << 64), 1u64 << 32);
    assert_eq!(isqrt((1u128 << 64) - 1), (1u64 << 32) - 1);
}

#[test]
fn isqrt_rounds_down() {
    // The square root of two, in sixteen fractional bits.
    let one = ONE as u128;
    assert_eq!(isqrt(2 * one * one), 92681);
}

#[test]
fn from_units_scales_by_one() {
    let p = Vec2::from_units(10, -5);
    assert_eq!(p, Vec2 { x: 655360, y: -327680 });
    assert_eq!(Vec2::from_units(i16::MAX, i16::MIN), Vec2 { x: 2147418112, y: i32::MIN });
}

#[test]
fn distance_squared_of_a_three_four_five_triangle() {
    let d2 = distance_squared(Vec2::from_units(0, 0), Vec2::from_units(3, 4));
    assert_eq!(d2, 107374182400);
    assert_eq!(isqrt(d2), 5 * ONE as u64);
}

#[test]
fn distance_squared_is_symmetric_and_zero_on_itself() {
    let a = Vec2 { x: -7, y: 12 };
    let b = Vec2 { x: 30, y: -4 };
    assert_eq!(distance_squared(a, b), distance_squared(b, a));
    assert_eq!(distance_squared(a, b), 37 * 37 + 16 * 16);
    assert_eq!(distance_squared(a, a), 0);
}

#[test]
fn distance_squared_between_the_far_corners() {
    let a = Vec2 { x: i32::MIN, y: i32::MIN };
    let b = Vec2 { x: i32::MAX, y: i32::MAX };
    let side = u32::MAX as u128;
    assert_eq!(distance_squared(a, b), 2 * side * side);
}

#[test]
fn mul_fixed_is_exact_on_representable_products() {
    assert_eq!(saturating_mul_fixed(3 * ONE / 2, 2 * ONE), 3 * ONE);
    assert_eq!(saturating_mul_fixed(ONE / 2, ONE / 2), ONE / 4);
    assert_eq!(saturating_mul_fixed(12345, ONE), 12345);
    assert_eq!(saturating_mul_fixed(ONE, 12345), 12345);
    assert_eq!(saturating_mul_fixed(12345, 0), 0);
}

#[test]
fn mul_fixed_rounds_down() {
    // Three times the smallest positive number, halved.
    assert_eq!(saturating_mul_fixed(3, ONE / 2), 1);
    assert_eq!(saturating_mul_fixed(1, 1), 0);
}

#[test]
fn mul_fixed_saturates() {
    assert_eq!(saturating_mul_fixed(u32::MAX, 2 * ONE), u32::MAX);
    assert_eq!(saturating_mul_fixed(u32::MAX, u32::MAX), u32::MAX);
}

#[test]
fn white_and_none() {
    assert_eq!(LinearRgba::white(), LinearRgba { red: ONE, green: ONE, blue: ONE, alpha: ONE });
    assert_eq!(LinearRgba::none(), LinearRgba { red: 0, green: 0, blue: 0, alpha: 0 });
}

#[test]
fn scale_multiplies_every_channel() {
    let color = LinearRgba { red: ONE, green: ONE / 2, blue: ONE / 4, alpha: ONE };
    assert_eq!(
        color.scale(ONE / 2),
        LinearRgba { red: 32768, green: 16384, blue: 8192, alpha: 32768 }
    );
    assert_eq!(color.scale(ONE), color);
    assert_eq!(color.scale(0), LinearRgba::none());
}

#[test]
fn saturating_add_adds_channel_by_channel() {
    let a = LinearRgba { red: 1, green: 2, blue: 3, alpha: u32::MAX - 1 };
    let b = LinearRgba { red: 10, green: 20, blue: 30, alpha: 5 };
    assert_eq!(
        a.saturating_add(b),
        LinearRgba { red: 11, green: 22, blue: 33, alpha: u32::MAX }
    );
}

#[test]
fn modulate_multiplies_channel_by_channel() {
    let a = LinearRgba { red: ONE, green: ONE / 2, blue: 2 * ONE, alpha: ONE };
    let b = LinearRgba { red: ONE / 2, green: ONE / 2, blue: 3 * ONE, alpha: 0 };
    assert_eq!(
        a.modulate(b),
        LinearRgba { red: ONE / 2, green: ONE / 4, blue: 6 * ONE, alpha: 0 }
    );
}
