use bevy_light_2d::math::{LinearRgba, ONE};
use bevy_light_2d::render::lighting::fragment::fragment;

fn scene() -> LinearRgba {
    LinearRgba { red: 12345, green: ONE / 2, blue: ONE, alpha: u32::MAX }
}

#[test]
fn light_of_one_leaves_the_scene_unchanged() {
    for color in [scene(), LinearRgba::none(), LinearRgba::white()] {
        assert_eq!(fragment(color, Some(LinearRgba::white())), color);
    }
}

#[test]
fn light_below_one_darkens() {
    let half = LinearRgba { red: ONE / 2, green: ONE / 2, blue: ONE / 2, alpha: ONE };
    assert_eq!(
        fragment(scene(), Some(half)),
        LinearRgba { red: 6172, green: ONE / 4, blue: ONE / 2, alpha: u32::MAX }
    );
}

#[test]
fn light_above_one_brightens() {
    let double = LinearRgba { red: 2 * ONE, green: 2 * ONE, blue: 2 * ONE, alpha: ONE };
    assert_eq!(
        fragment(scene(), Some(double)),
        LinearRgba { red: 24690, green: ONE, blue: 2 * ONE, alpha: u32::MAX }
    );
}

#[test]
fn no_light_leaves_the_scene_black() {
    assert_eq!(fragment(scene(), Some(LinearRgba::none())), LinearRgba::none());
}

#[test]
fn bright_light_saturates() {
    let bright = LinearRgba { red: ONE, green: ONE, blue: ONE, alpha: 2 * ONE };
    assert_eq!(fragment(scene(), Some(bright)).alpha, u32::MAX);
}

#[test]
fn without_a_light_map_the_scene_is_copied() {
    assert_eq!(fragment(scene(), None), scene());
}
