use bevy_light_2d::light::{AmbientLight2d, PointLight2d, PointLight2dBundle};
use bevy_light_2d::math::{distance_squared, HalfSize, LinearRgba, Vec2, ONE};
use bevy_light_2d::render::extract::{
    extract_ambient_lights, extract_point_lights, ExtractedAmbientLight2d,
    ExtractedLightOccluder2d, ExtractedPointLight2d,
};
use bevy_light_2d::render::light_map::attenuation::attenuation;
use bevy_light_2d::render::light_map::fragment::{contribution, fragment};
use bevy_light_2d::render::light_map::shadow::{is_occluded, MARCH_STEPS};

fn squared(units: u32) -> u128 {
    let raw = (units * ONE) as u128;
    raw * raw
}

fn white_light(x: i16, y: i16, radius: u32, cast_shadows: u32) -> ExtractedPointLight2d {
    ExtractedPointLight2d {
        transform: Vec2::from_units(x, y),
        radius: radius * ONE,
        color: LinearRgba::white(),
        intensity: ONE,
        falloff: 0,
        cast_shadows,
    }
}

fn rect(x: i16, y: i16, half_x: u32, half_y: u32) -> ExtractedLightOccluder2d {
    ExtractedLightOccluder2d {
        half_size: HalfSize { x: half_x * ONE, y: half_y * ONE },
        center: Vec2::from_units(x, y),
    }
}

fn dark() -> ExtractedAmbientLight2d {
    ExtractedAmbientLight2d { color: LinearRgba::none() }
}

#[test]
fn attenuation_is_zero_at_the_radius() {
    for radius in [1, 2, 50, 100, 30000] {
        for falloff in [0, ONE / 2, ONE, 10 * ONE] {
            assert_eq!(attenuation(squared(radius), radius * ONE, falloff), 0);
        }
    }
    // Three, four, five: a pixel on the boundary that is not on an axis.
    let light = Vec2::from_units(0, 0);
    let pixel = Vec2::from_units(3, 4);
    assert_eq!(attenuation(distance_squared(pixel, light), 5 * ONE, 0), 0);
}

#[test]
fn attenuation_is_zero_beyond_the_radius() {
    assert_eq!(attenuation(squared(51), 50 * ONE, 0), 0);
    assert_eq!(attenuation(squared(50) + 1, 50 * ONE, 0), 0);
    assert_eq!(attenuation(u128::MAX, u32::MAX, 0), 0);
}

#[test]
fn attenuation_is_one_at_the_center_without_falloff() {
    for radius in [1, ONE / 2, ONE, 50 * ONE, u32::MAX] {
        assert_eq!(attenuation(0, radius, 0), ONE);
    }
}

#[test]
fn attenuation_is_one_at_the_center_whatever_the_falloff() {
    for falloff in [1, ONE, 10 * ONE, u32::MAX] {
        assert_eq!(attenuation(0, 50 * ONE, falloff), ONE);
    }
}

#[test]
fn attenuation_at_the_center_of_a_light_without_extent_is_zero() {
    assert_eq!(attenuation(0, 0, 0), 0);
}

#[test]
fn attenuation_halfway_to_the_radius() {
    // s² is a quarter: (1 - 1/4)² = 0.5625.
    assert_eq!(attenuation(squared(50), 100 * ONE, 0), 36864);
    // 0.5625 / (1 + 1/4) = 0.45.
    assert_eq!(attenuation(squared(50), 100 * ONE, ONE), 29491);
    // 0.5625 / (1 + 4/4) = 0.28125.
    assert_eq!(attenuation(squared(50), 100 * ONE, 4 * ONE), 18432);
}

#[test]
fn attenuation_near_the_radius() {
    assert_eq!(attenuation(squared(80), 100 * ONE, 0), 8493);
}

#[test]
fn attenuation_decreases_as_falloff_increases() {
    for distance in [1, 10, 25, 49] {
        let mut last = ONE;
        for step in 0..64 {
            let falloff = step * (ONE / 4);
            let a = attenuation(squared(distance), 50 * ONE, falloff);
            assert!(a <= last);
            last = a;
        }
        assert!(last < attenuation(squared(distance), 50 * ONE, 0));
    }
}

#[test]
fn attenuation_decreases_with_distance() {
    let mut last = ONE;
    for distance in 0..=50 {
        let a = attenuation(squared(distance), 50 * ONE, ONE);
        assert!(a <= last);
        last = a;
    }
    assert_eq!(last, 0);
}

#[test]
fn without_occluders_nothing_is_occluded() {
    let none = Vec::new();
    let light = Vec2::from_units(0, 0);
    for pixel in [
        Vec2::from_units(0, 0),
        Vec2::from_units(1, 0),
        Vec2::from_units(-300, 4000),
        Vec2 { x: i32::MAX, y: i32::MIN },
    ] {
        assert!(!is_occluded(pixel, light, &none));
    }
    assert!(!is_occluded(
        Vec2 { x: i32::MIN, y: i32::MIN },
        Vec2 { x: i32::MAX, y: i32::MAX },
        &none
    ));
}

#[test]
fn without_occluders_shadow_casting_lights_shine_as_the_others_do() {
    let none = Vec::new();
    let pixel = Vec2::from_units(30, 0);
    let plain = white_light(0, 0, 50, 0);
    let shadows = white_light(0, 0, 50, 1);
    assert_eq!(contribution(&shadows, pixel, &none), contribution(&plain, pixel, &none));
    assert!(contribution(&shadows, pixel, &none).red > 0);
}

#[test]
fn an_occluder_between_light_and_pixel_occludes() {
    let occluders = vec![rect(50, 0, 5, 20)];
    let light = Vec2::from_units(0, 0);
    assert!(is_occluded(Vec2::from_units(80, 0), light, &occluders));
    assert!(is_occluded(Vec2::from_units(80, 10), light, &occluders));
    assert!(is_occluded(Vec2::from_units(56, -3), light, &occluders));
}

#[test]
fn an_occluder_that_is_not_in_the_way_does_not_occlude() {
    let occluders = vec![rect(50, 0, 5, 20)];
    let light = Vec2::from_units(0, 0);
    assert!(!is_occluded(Vec2::from_units(-80, 0), light, &occluders));
    assert!(!is_occluded(Vec2::from_units(0, 80), light, &occluders));
    assert!(!is_occluded(Vec2::from_units(30, 0), light, &occluders));
    assert!(!is_occluded(Vec2::from_units(0, 0), light, &occluders));
}

#[test]
fn a_pixel_inside_an_occluder_is_occluded() {
    let occluders = vec![rect(50, 0, 5, 20)];
    assert!(is_occluded(Vec2::from_units(50, 0), Vec2::from_units(0, 0), &occluders));
    assert!(is_occluded(Vec2::from_units(45, 20), Vec2::from_units(0, 0), &occluders));
}

#[test]
fn a_pixel_at_the_light_is_never_occluded() {
    let occluders = vec![rect(0, 0, 5, 5)];
    let light = Vec2::from_units(1, 1);
    assert!(!is_occluded(light, light, &occluders));
}

#[test]
fn the_march_takes_thirty_two_steps() {
    assert_eq!(MARCH_STEPS, 32);
    // A ray that runs along an occluder, one unit off its edge, advances by one
    // unit per step: thirty-one units are within reach, forty are not.
    let occluders = vec![rect(0, -11, 100, 10)];
    let pixel = Vec2::from_units(0, 0);
    assert!(!is_occluded(pixel, Vec2::from_units(31, 0), &occluders));
    assert!(is_occluded(pixel, Vec2::from_units(40, 0), &occluders));
}

#[test]
fn contribution_is_color_times_intensity_times_attenuation() {
    let light = ExtractedPointLight2d {
        transform: Vec2::from_units(0, 0),
        radius: 50 * ONE,
        color: LinearRgba { red: ONE, green: ONE / 2, blue: ONE / 4, alpha: ONE },
        intensity: 2 * ONE,
        falloff: ONE,
        cast_shadows: 0,
    };
    let pixel = Vec2::from_units(0, 30);
    assert_eq!(attenuation(distance_squared(pixel, light.transform), light.radius, light.falloff), 19739);
    assert_eq!(
        contribution(&light, pixel, &Vec::new()),
        LinearRgba { red: 39478, green: 19739, blue: 9869, alpha: 39478 }
    );
}

#[test]
fn contribution_is_nothing_from_the_radius_on() {
    let light = white_light(0, 0, 5, 0);
    let none = Vec::new();
    assert_eq!(contribution(&light, Vec2::from_units(3, 4), &none), LinearRgba::none());
    assert_eq!(contribution(&light, Vec2::from_units(5, 0), &none), LinearRgba::none());
    assert_eq!(contribution(&light, Vec2::from_units(60, 0), &none), LinearRgba::none());
    assert!(contribution(&light, Vec2::from_units(4, 0), &none).red > 0);
}

#[test]
fn a_light_that_casts_no_shadows_shines_through_occluders() {
    let occluders = vec![rect(50, 0, 5, 20)];
    let pixel = Vec2::from_units(80, 0);
    let plain = white_light(0, 0, 100, 0);
    assert_eq!(
        contribution(&plain, pixel, &occluders),
        LinearRgba { red: 8493, green: 8493, blue: 8493, alpha: 8493 }
    );
    let shadows = white_light(0, 0, 100, 1);
    assert_eq!(contribution(&shadows, pixel, &occluders), LinearRgba::none());
}

#[test]
fn without_lights_the_light_map_is_the_ambient_light() {
    let ambient = ExtractedAmbientLight2d {
        color: LinearRgba { red: 1, green: 2, blue: 3, alpha: 4 },
    };
    let color = fragment(Vec2::from_units(7, 7), &ambient, &Vec::new(), &vec![rect(7, 7, 1, 1)]);
    assert_eq!(color, ambient.color);
}

#[test]
fn lights_add_up_on_top_of_the_ambient_light() {
    let ambient = ExtractedAmbientLight2d {
        color: LinearRgba { red: 100, green: 200, blue: 300, alpha: 400 },
    };
    let lights = vec![white_light(0, 0, 100, 0), white_light(100, 0, 100, 0)];
    // Halfway between the two lights each of them arrives with 0.5625.
    let color = fragment(Vec2::from_units(50, 0), &ambient, &lights, &Vec::new());
    assert_eq!(
        color,
        LinearRgba {
            red: 100 + 2 * 36864,
            green: 200 + 2 * 36864,
            blue: 300 + 2 * 36864,
            alpha: 400 + 2 * 36864,
        }
    );
}

#[test]
fn overlapping_lights_saturate() {
    let bright = ExtractedPointLight2d {
        transform: Vec2::from_units(0, 0),
        radius: 10 * ONE,
        color: LinearRgba { red: u32::MAX, green: ONE, blue: 0, alpha: ONE },
        intensity: 2 * ONE,
        falloff: 0,
        cast_shadows: 0,
    };
    let color = fragment(Vec2::from_units(0, 0), &dark(), &vec![bright, bright], &Vec::new());
    assert_eq!(color, LinearRgba { red: u32::MAX, green: 4 * ONE, blue: 0, alpha: 4 * ONE });
}

#[test]
fn round_trip_from_the_scene_to_the_light_map() {
    let scene = vec![PointLight2dBundle {
        point_light: PointLight2d {
            color: LinearRgba::white(),
            intensity: 2 * ONE,
            radius: 50 * ONE,
            falloff: ONE,
            cast_shadows: false,
        },
        position: Some(Vec2::from_units(10, 5)),
        view_visibility: true,
    }];
    let lights = extract_point_lights(&scene);
    let color = fragment(Vec2::from_units(10, 5), &dark(), &lights, &Vec::new());
    // Intensity times color: at the center everything arrives.
    assert_eq!(color, LinearRgba { red: 2 * ONE, green: 2 * ONE, blue: 2 * ONE, alpha: 2 * ONE });
}

#[test]
fn an_occluded_pixel_under_a_dark_ambient_light_is_black() {
    let ambient = extract_ambient_lights(&vec![Some(AmbientLight2d {
        color: LinearRgba::white(),
        brightness: 0,
    })]);
    let lights = vec![white_light(0, 0, 100, 1)];
    let occluders = vec![rect(50, 0, 5, 20)];
    let behind = Vec2::from_units(80, 0);
    assert_eq!(fragment(behind, &ambient[0], &lights, &occluders), LinearRgba::none());
    // On the near side of the occluder the light arrives.
    let before = Vec2::from_units(30, 0);
    assert!(fragment(before, &ambient[0], &lights, &occluders).red > 0);
    // Without the occluder it arrives behind it too.
    assert_eq!(
        fragment(behind, &ambient[0], &lights, &Vec::new()),
        LinearRgba { red: 8493, green: 8493, blue: 8493, alpha: 8493 }
    );
}

#[test]
fn no_light_leaks_through_an_occluder_along_an_axis() {
    let wall = rect(0, 50, 30, 2);
    let thin = ExtractedLightOccluder2d {
        half_size: HalfSize { x: 30 * ONE, y: 0 },
        center: Vec2::from_units(0, -50),
    };
    let occluders = vec![wall, thin];
    let light = Vec2::from_units(7, 0);
    // Straight up and straight down, from any distance behind the occluders.
    for y in [53, 60, 100, 1000, 30000] {
        assert!(is_occluded(Vec2::from_units(7, y), light, &occluders));
        assert!(is_occluded(Vec2::from_units(7, -y), light, &occluders));
    }
    // On this side of them the light arrives.
    for y in [-49, -20, 0, 20, 47] {
        assert!(!is_occluded(Vec2::from_units(7, y), light, &occluders));
    }
    // And so it does where the ray passes them by.
    assert!(!is_occluded(Vec2::from_units(100, 0), light, &occluders));
    assert!(!is_occluded(Vec2::from_units(-100, 0), light, &occluders));
}

#[test]
fn a_light_inside_an_occluder_reaches_nothing_outside_of_it() {
    let occluders = vec![rect(0, 0, 5, 5)];
    let light = Vec2::from_units(1, 0);
    assert!(is_occluded(Vec2::from_units(20, 0), light, &occluders));
    assert!(is_occluded(Vec2::from_units(1, -20), light, &occluders));
}

#[test]
fn where_the_nearest_occluder_is_further_than_the_light_the_light_arrives() {
    let occluders = vec![rect(100, 100, 10, 10)];
    let light = Vec2::from_units(0, 0);
    for (x, y) in [(10, 0), (0, -30), (-40, -40), (60, 0)] {
        assert!(!is_occluded(Vec2::from_units(x, y), light, &occluders));
    }
}

#[test]
fn no_light_leaks_through_an_occluder_whichever_way_the_ray_runs() {
    let occluders = vec![rect(0, 0, 3, 3)];
    // Lights and pixels on opposite sides of the occluder, on rays through it.
    for (dx, dy) in [(1, 0), (0, 1), (1, 1), (2, 1), (1, 3), (-3, 2), (-1, -2), (5, -4)] {
        let light = Vec2::from_units(-7 * dx, -7 * dy);
        let pixel = Vec2::from_units(9 * dx, 9 * dy);
        assert!(is_occluded(pixel, light, &occluders));
        assert!(is_occluded(light, pixel, &occluders));
    }
    // A ray that passes the occluder by at a distance is not stopped.
    assert!(!is_occluded(Vec2::from_units(-20, 12), Vec2::from_units(20, 12), &occluders));
}
