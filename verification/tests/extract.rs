use bevy_light_2d::light::{AmbientLight2d, PointLight2d, PointLight2dBundle};
use bevy_light_2d::math::{HalfSize, LinearRgba, Vec2, ONE};
use bevy_light_2d::occluder::{LightOccluder2d, LightOccluder2dBundle, LightOccluder2dShape};
use bevy_light_2d::render::extract::{
    extract_ambient_lights, extract_light_occluders, extract_point_lights,
    ExtractedAmbientLight2d, ExtractedLightOccluder2d, ExtractedPointLight2d,
};

fn light(x: i16, radius: u32, cast_shadows: bool, visible: bool) -> PointLight2dBundle {
    PointLight2dBundle {
        point_light: PointLight2d {
            color: LinearRgba { red: ONE, green: ONE / 2, blue: 0, alpha: ONE },
            intensity: 2 * ONE,
            radius,
            falloff: ONE,
            cast_shadows,
        },
        position: Some(Vec2::from_units(x, 1)),
        view_visibility: visible,
    }
}

#[test]
fn default_point_light_is_white_with_diameter_one() {
    let light = PointLight2d::default();
    assert_eq!(light.color, LinearRgba::white());
    assert_eq!(light.intensity, ONE);
    assert_eq!(light.radius, ONE / 2);
    assert_eq!(light.falloff, 0);
    assert!(!light.cast_shadows);
}

#[test]
fn default_ambient_light_is_neutral() {
    let ambient = AmbientLight2d::default();
    assert_eq!(ambient.color, LinearRgba::white());
    assert_eq!(ambient.brightness, ONE);
}

#[test]
fn default_bundles_are_hidden_at_the_origin() {
    let light = PointLight2dBundle::default();
    assert_eq!(light.point_light, PointLight2d::default());
    assert_eq!(light.position, Some(Vec2 { x: 0, y: 0 }));
    assert!(!light.view_visibility);
    let occluder = LightOccluder2dBundle::default();
    assert_eq!(
        occluder.light_occluder.shape,
        LightOccluder2dShape::Rectangle { half_size: HalfSize { x: 0, y: 0 } }
    );
    assert_eq!(occluder.position, Some(Vec2 { x: 0, y: 0 }));
    assert!(!occluder.view_visibility);
    assert_eq!(LightOccluder2d::default().shape, LightOccluder2dShape::default());
}

#[test]
fn point_lights_are_extracted_field_by_field() {
    let extracted = extract_point_lights(&vec![light(3, 50 * ONE, true, true)]);
    assert_eq!(
        extracted,
        vec![ExtractedPointLight2d {
            transform: Vec2 { x: 3 * 65536, y: 65536 },
            radius: 50 * ONE,
            color: LinearRgba { red: ONE, green: ONE / 2, blue: 0, alpha: ONE },
            intensity: 2 * ONE,
            falloff: ONE,
            cast_shadows: 1,
        }]
    );
}

#[test]
fn cast_shadows_becomes_zero_or_one() {
    let extracted = extract_point_lights(&vec![
        light(0, ONE, false, true),
        light(1, ONE, true, true),
    ]);
    assert_eq!(extracted[0].cast_shadows, 0);
    assert_eq!(extracted[1].cast_shadows, 1);
}

#[test]
fn invisible_point_lights_are_skipped_and_order_is_kept() {
    let scene = vec![
        light(1, ONE, false, true),
        light(2, ONE, false, false),
        light(3, ONE, false, true),
        light(4, ONE, false, false),
        light(5, ONE, false, true),
    ];
    let extracted = extract_point_lights(&scene);
    let xs: Vec<i32> = extracted.iter().map(|light| light.transform.x / 65536).collect();
    assert_eq!(xs, vec![1, 3, 5]);
}

#[test]
fn extraction_leaves_the_scene_as_it_is() {
    let scene = vec![light(1, ONE, false, true), light(2, ONE, true, false)];
    let before = scene.clone();
    let _ = extract_point_lights(&scene);
    assert_eq!(scene, before);
}

#[test]
fn no_lights_no_records() {
    assert_eq!(extract_point_lights(&Vec::new()), Vec::new());
    assert_eq!(extract_point_lights(&vec![light(1, ONE, false, false)]), Vec::new());
    assert_eq!(extract_light_occluders(&Vec::new()), Vec::new());
}

fn occluder(x: i16, half: u32, visible: bool) -> LightOccluder2dBundle {
    LightOccluder2dBundle {
        light_occluder: LightOccluder2d {
            shape: LightOccluder2dShape::Rectangle { half_size: HalfSize { x: half, y: 2 * half } },
        },
        position: Some(Vec2::from_units(x, -x)),
        view_visibility: visible,
    }
}

#[test]
fn occluders_are_extracted_with_shape_and_center() {
    let extracted = extract_light_occluders(&vec![
        occluder(1, 10, false),
        occluder(2, 20, true),
        occluder(3, 30, true),
    ]);
    assert_eq!(
        extracted,
        vec![
            ExtractedLightOccluder2d {
                half_size: HalfSize { x: 20, y: 40 },
                center: Vec2::from_units(2, -2),
            },
            ExtractedLightOccluder2d {
                half_size: HalfSize { x: 30, y: 60 },
                center: Vec2::from_units(3, -3),
            },
        ]
    );
}

#[test]
fn ambient_color_is_multiplied_by_brightness() {
    let view = Some(AmbientLight2d {
        color: LinearRgba { red: ONE, green: ONE / 2, blue: ONE / 4, alpha: ONE },
        brightness: ONE / 2,
    });
    assert_eq!(
        extract_ambient_lights(&vec![view]),
        vec![ExtractedAmbientLight2d {
            color: LinearRgba { red: 32768, green: 16384, blue: 8192, alpha: 32768 },
        }]
    );
}

#[test]
fn ambient_brightness_zero_is_black() {
    let view = Some(AmbientLight2d { color: LinearRgba::white(), brightness: 0 });
    assert_eq!(
        extract_ambient_lights(&vec![view]),
        vec![ExtractedAmbientLight2d { color: LinearRgba::none() }]
    );
}

#[test]
fn a_view_without_ambient_light_gets_the_neutral_one() {
    let extracted = extract_ambient_lights(&vec![
        None,
        Some(AmbientLight2d { color: LinearRgba::white(), brightness: 2 * ONE }),
        None,
    ]);
    assert_eq!(extracted.len(), 3);
    assert_eq!(extracted[0].color, LinearRgba::white());
    assert_eq!(
        extracted[1].color,
        LinearRgba { red: 2 * ONE, green: 2 * ONE, blue: 2 * ONE, alpha: 2 * ONE }
    );
    assert_eq!(extracted[2].color, LinearRgba::white());
}

#[test]
fn the_default_ambient_light_is_extracted_as_the_neutral_one() {
    let extracted = extract_ambient_lights(&vec![Some(AmbientLight2d::default()), None]);
    assert_eq!(extracted[0], extracted[1]);
}

#[test]
fn the_default_extracted_point_light_is_all_zero() {
    assert_eq!(
        ExtractedPointLight2d::default(),
        ExtractedPointLight2d {
            transform: Vec2 { x: 0, y: 0 },
            radius: 0,
            color: LinearRgba::none(),
            intensity: 0,
            falloff: 0,
            cast_shadows: 0,
        }
    );
}

#[test]
fn a_light_without_a_position_is_dropped() {
    let mut lost = light(2, ONE, false, true);
    lost.position = None;
    let scene = vec![light(1, ONE, false, true), lost, light(3, ONE, false, true)];
    let extracted = extract_point_lights(&scene);
    let xs: Vec<i32> = extracted.iter().map(|light| light.transform.x / 65536).collect();
    assert_eq!(xs, vec![1, 3]);
    assert_eq!(ExtractedPointLight2d::extract(&lost), None);
    assert_eq!(ExtractedPointLight2d::extract(&scene[0]), Some(extracted[0]));
}

#[test]
fn an_occluder_without_a_position_is_dropped() {
    let mut lost = occluder(2, 20, true);
    lost.position = None;
    let extracted = extract_light_occluders(&vec![lost, occluder(3, 30, true)]);
    assert_eq!(extracted.len(), 1);
    assert_eq!(extracted[0].center, Vec2::from_units(3, -3));
    assert_eq!(ExtractedLightOccluder2d::extract(&lost), None);
    assert_eq!(ExtractedLightOccluder2d::extract(&occluder(3, 30, false)), None);
}

#[test]
fn one_ambient_light_is_extracted_as_the_batch_extracts_it() {
    let ambient = AmbientLight2d { color: LinearRgba::white(), brightness: ONE / 4 };
    assert_eq!(
        extract_ambient_lights(&vec![Some(ambient), None]),
        vec![
            ExtractedAmbientLight2d::extract(Some(ambient)),
            ExtractedAmbientLight2d::extract(None),
        ]
    );
}
