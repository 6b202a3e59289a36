use bevy_light_2d::math::{HalfSize, Vec2, ONE};
use bevy_light_2d::render::extract::ExtractedLightOccluder2d;
use bevy_light_2d::render::sdf::fragment::{fragment, occluder_distance, SDF_INFINITE};

fn rect(x: i16, y: i16, half_x: u32, half_y: u32) -> ExtractedLightOccluder2d {
    ExtractedLightOccluder2d {
        half_size: HalfSize { x: half_x * ONE, y: half_y * ONE },
        center: Vec2::from_units(x, y),
    }
}

#[test]
fn distance_is_zero_inside_and_on_the_boundary() {
    let occluder = rect(5, 5, 5, 5);
    assert_eq!(occluder_distance(Vec2::from_units(5, 5), &occluder), 0);
    assert_eq!(occluder_distance(Vec2::from_units(1, 9), &occluder), 0);
    assert_eq!(occluder_distance(Vec2::from_units(10, 10), &occluder), 0);
    assert_eq!(occluder_distance(Vec2::from_units(0, 5), &occluder), 0);
}

#[test]
fn distance_along_an_axis_is_the_gap() {
    let occluder = rect(5, 5, 5, 5);
    assert_eq!(occluder_distance(Vec2::from_units(13, 5), &occluder), 3 * ONE as u64);
    assert_eq!(occluder_distance(Vec2::from_units(-3, 5), &occluder), 3 * ONE as u64);
    assert_eq!(occluder_distance(Vec2::from_units(5, 17), &occluder), 7 * ONE as u64);
    assert_eq!(occluder_distance(Vec2::from_units(7, -2), &occluder), 2 * ONE as u64);
}

#[test]
fn distance_to_a_corner_is_euclidean() {
    let occluder = rect(5, 5, 5, 5);
    assert_eq!(occluder_distance(Vec2::from_units(13, 14), &occluder), 5 * ONE as u64);
    assert_eq!(occluder_distance(Vec2::from_units(-3, -4), &occluder), 5 * ONE as u64);
    // One unit away in both directions: the square root of two, rounded down.
    assert_eq!(occluder_distance(Vec2::from_units(11, 11), &occluder), 92681);
}

#[test]
fn the_smallest_step_outside_is_seen() {
    let occluder = rect(0, 0, 1, 1);
    let just_outside = Vec2 { x: ONE as i32 + 1, y: 0 };
    assert_eq!(occluder_distance(just_outside, &occluder), 1);
}

#[test]
fn an_occluder_without_extent_is_a_point() {
    let occluder = rect(2, 2, 0, 0);
    assert_eq!(occluder_distance(Vec2::from_units(2, 2), &occluder), 0);
    assert_eq!(occluder_distance(Vec2::from_units(5, 6), &occluder), 5 * ONE as u64);
}

#[test]
fn distance_across_the_whole_world() {
    let occluder = ExtractedLightOccluder2d {
        half_size: HalfSize { x: 0, y: 0 },
        center: Vec2 { x: i32::MIN, y: 0 },
    };
    let distance = occluder_distance(Vec2 { x: i32::MAX, y: 0 }, &occluder);
    assert_eq!(distance, u32::MAX as u64);
    assert!(distance < SDF_INFINITE);
}

#[test]
fn without_occluders_the_field_is_infinite_everywhere() {
    let none = Vec::new();
    for p in [
        Vec2::from_units(0, 0),
        Vec2::from_units(100, -100),
        Vec2 { x: i32::MAX, y: i32::MIN },
    ] {
        assert_eq!(fragment(p, &none), SDF_INFINITE);
    }
}

#[test]
fn the_field_is_the_distance_to_the_nearest_occluder() {
    let occluders = vec![rect(0, 0, 1, 1), rect(20, 0, 2, 2), rect(0, 30, 1, 1)];
    // Seven from the first, ten from the second.
    assert_eq!(fragment(Vec2::from_units(8, 0), &occluders), 7 * ONE as u64);
    // Twelve from the first, five from the second.
    assert_eq!(fragment(Vec2::from_units(13, 0), &occluders), 5 * ONE as u64);
    assert_eq!(fragment(Vec2::from_units(0, 25), &occluders), 4 * ONE as u64);
    assert_eq!(fragment(Vec2::from_units(21, 1), &occluders), 0);
}

#[test]
fn the_order_of_the_occluders_does_not_matter() {
    let a = vec![rect(0, 0, 1, 1), rect(20, 0, 2, 2)];
    let b = vec![rect(20, 0, 2, 2), rect(0, 0, 1, 1)];
    for x in -5..30 {
        let p = Vec2::from_units(x, 3);
        assert_eq!(fragment(p, &a), fragment(p, &b));
    }
}

#[test]
fn the_field_never_decreases_on_the_way_out_of_an_occluder() {
    let occluder = rect(0, 0, 4, 2);
    let occluders = vec![occluder];
    let inside = Vec2::from_units(1, 1);
    assert_eq!(fragment(inside, &occluders), 0);
    for (dir_x, dir_y) in [(1, 0), (-1, 0), (0, 1), (0, -1), (3, 2), (-2, 5), (-1, -1), (7, -3)] {
        let mut last = 0;
        for t in 0..40 {
            let p = Vec2 {
                x: inside.x + t * dir_x * 20000,
                y: inside.y + t * dir_y * 20000,
            };
            let distance = fragment(p, &occluders);
            assert!(distance >= last);
            assert_eq!(distance, occluder_distance(p, &occluder));
            last = distance;
        }
        assert!(last > 0);
    }
}
