//! The light map: for a point of the world, the ambient light plus what
//! every point light adds there, shadows taken into account.

use vstd::prelude::*;
use crate::light::PointLight2dBundle;
use crate::math::{distance_squared, distance_squared_spec, mul_fixed, saturating_mul_fixed};
use crate::math::{lemma_mul_fixed_unit, LinearRgba, Vec2};
use crate::render::extract::{
    ExtractedAmbientLight2d,
    ExtractedLightOccluder2d,
    ExtractedPointLight2d,
};
use crate::render::light_map::attenuation::{attenuation, lemma_attenuation_one_at_center};
use crate::render::light_map::shadow::{is_occluded, occluded, ray_reaches};

verus! {

impl ExtractedPointLight2d {
    /// What this light adds to the light map at `pixel`: nothing from its
    /// radius on or in shadow, and otherwise its color times its intensity
    /// times the attenuation.
    pub open spec fn contribution_at(
        self,
        pixel: Vec2,
        occluders: Seq<ExtractedLightOccluder2d>,
    ) -> LinearRgba {
        if distance_squared_spec(pixel, self.transform) >= self.radius * self.radius
            || self.shadowed_at(pixel, occluders) {
            LinearRgba::none_spec()
        } else {
            self.color.scaled(mul_fixed(self.intensity as int, self.attenuation_at(pixel)))
        }
    }
}

/// The light map at `pixel`: the ambient color plus what each light adds,
/// each channel held to the largest value it can store.
pub open spec fn light_map(
    pixel: Vec2,
    ambient_light: ExtractedAmbientLight2d,
    point_lights: Seq<ExtractedPointLight2d>,
    occluders: Seq<ExtractedLightOccluder2d>,
) -> LinearRgba
    decreases point_lights.len(),
{
    if point_lights.len() == 0 {
        ambient_light.color
    } else {
        light_map(pixel, ambient_light, point_lights.drop_last(), occluders).plus(
            point_lights.last().contribution_at(pixel, occluders),
        )
    }
}

/// At its own center a light adds its color times its intensity: nothing is
/// lost to distance, and no occluder stands between a point and itself.
pub proof fn lemma_contribution_at_center(
    light: ExtractedPointLight2d,
    occluders: Seq<ExtractedLightOccluder2d>,
)
    requires
        light.radius > 0,
    ensures
        light.contribution_at(light.transform, occluders) == light.color.scaled(
            light.intensity as int,
        ),
{
    lemma_attenuation_one_at_center(light, light.transform);
    lemma_mul_fixed_unit(light.intensity as int);
    assert(light.radius * light.radius > 0) by (nonlinear_arith)
        requires
            light.radius > 0,
    ;
    assert(distance_squared_spec(light.transform, light.transform) == 0);
    assert(!occluded(light.transform, light.transform, occluders)) by {
        reveal_with_fuel(ray_reaches, 2);
        assert(0nat * 0nat >= 0);
    }
}

/// Where no light adds anything, because the point is out of reach of every
/// light or in its shadow, the light map is the ambient light.
pub proof fn lemma_light_map_without_contribution(
    pixel: Vec2,
    ambient_light: ExtractedAmbientLight2d,
    point_lights: Seq<ExtractedPointLight2d>,
    occluders: Seq<ExtractedLightOccluder2d>,
)
    requires
        forall|i: int|
            0 <= i < point_lights.len() ==> (#[trigger] point_lights[i]).contribution_at(
                pixel,
                occluders,
            ) == LinearRgba::none_spec(),
    ensures
        light_map(pixel, ambient_light, point_lights, occluders) == ambient_light.color,
    decreases point_lights.len(),
{
    if point_lights.len() > 0 {
        let rest = point_lights.drop_last();
        assert forall|i: int| 0 <= i < rest.len() implies (#[trigger] rest[i]).contribution_at(
            pixel,
            occluders,
        ) == LinearRgba::none_spec() by {
            assert(rest[i] == point_lights[i]);
        }
        lemma_light_map_without_contribution(pixel, ambient_light, rest, occluders);
        assert(point_lights.last() == point_lights[point_lights.len() - 1]);
    }
}

/// The light map at the center of a scene's only light, once the light was
/// extracted: the ambient light plus the light's color times its intensity.
pub proof fn lemma_light_map_at_center(
    bundle: PointLight2dBundle,
    ambient_light: ExtractedAmbientLight2d,
    occluders: Seq<ExtractedLightOccluder2d>,
)
    requires
        bundle.view_visibility,
        bundle.position.is_some(),
        bundle.point_light.radius > 0,
    ensures
        light_map(
            bundle.position.unwrap(),
            ambient_light,
            seq![bundle].filter_map(
                |bundle: PointLight2dBundle| ExtractedPointLight2d::of_visible(bundle),
            ),
            occluders,
        ) == ambient_light.color.plus(
            bundle.point_light.color.scaled(bundle.point_light.intensity as int),
        ),
{
    let select = |bundle: PointLight2dBundle| ExtractedPointLight2d::of_visible(bundle);
    let extracted = ExtractedPointLight2d::of(bundle, bundle.position.unwrap());
    let scene = seq![bundle];
    assert(scene.drop_last() =~= Seq::<PointLight2dBundle>::empty());
    assert(scene.last() == bundle);
    reveal_with_fuel(Seq::filter_map, 2);
    assert(scene.filter_map(select) =~= seq![extracted]);
    let lights = seq![extracted];
    assert(lights.drop_last() =~= Seq::<ExtractedPointLight2d>::empty());
    assert(lights.last() == extracted);
    reveal_with_fuel(light_map, 2);
    lemma_contribution_at_center(extracted, occluders);
}

/// What `light` adds to the light map at `pixel`.
pub fn contribution(
    light: &ExtractedPointLight2d,
    pixel: Vec2,
    occluders: &Vec<ExtractedLightOccluder2d>,
) -> (color: LinearRgba)
    ensures
        color == light.contribution_at(pixel, occluders@),
        occluders.len() == 0 ==> color == if distance_squared_spec(pixel, light.transform)
            >= light.radius * light.radius {
            LinearRgba::none_spec()
        } else {
            light.color.scaled(mul_fixed(light.intensity as int, light.attenuation_at(pixel)))
        },
{
    let distance_squared = distance_squared(pixel, light.transform);
    assert(light.radius * light.radius <= 0xffff_ffff * 0xffff_ffff) by (nonlinear_arith)
        requires
            0 <= light.radius <= 0xffff_ffff,
    ;
    let radius_squared: u128 = (light.radius as u128) * (light.radius as u128);
    if distance_squared >= radius_squared {
        return LinearRgba::none();
    }
    if light.cast_shadows != 0 && is_occluded(pixel, light.transform, occluders) {
        return LinearRgba::none();
    }
    let strength = saturating_mul_fixed(
        light.intensity,
        attenuation(distance_squared, light.radius, light.falloff),
    );
    light.color.scale(strength)
}

/// The light map at `pixel`: the ambient color plus what every point light
/// adds there.
pub fn fragment(
    pixel: Vec2,
    ambient_light: &ExtractedAmbientLight2d,
    point_lights: &Vec<ExtractedPointLight2d>,
    occluders: &Vec<ExtractedLightOccluder2d>,
) -> (color: LinearRgba)
    ensures
        color == light_map(pixel, *ambient_light, point_lights@, occluders@),
        point_lights.len() == 0 ==> color == ambient_light.color,
{
    let mut color = ambient_light.color;
    let mut i: usize = 0;
    while i < point_lights.len()
        invariant
            i <= point_lights.len(),
            color == light_map(pixel, *ambient_light, point_lights@.take(i as int), occluders@),
        decreases point_lights.len() - i,
    {
        proof {
            point_lights@.lemma_take_succ_push(i as int);
            assert(point_lights@.take(i + 1).drop_last() == point_lights@.take(i as int));
        }
        color = color.saturating_add(contribution(&point_lights[i], pixel, occluders));
        i += 1;
    }
    proof {
        point_lights@.lemma_take_len();
    }
    color
}

} // verus!
