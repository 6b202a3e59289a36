//! Snapshots of the scene's lights and occluders, taken once per frame.

use vstd::prelude::*;
use crate::light::{AmbientLight2d, PointLight2dBundle};
use crate::math::{HalfSize, LinearRgba, Vec2};
use crate::occluder::{LightOccluder2dBundle, LightOccluder2dShape};

verus! {

/// A visible point light, as the passes read it.
#[derive(Clone, Copy, Debug, PartialEq, Eq, Structural)]
pub struct ExtractedPointLight2d {
    /// The light's center in world space.
    pub transform: Vec2,
    pub radius: u32,
    pub color: LinearRgba,
    pub intensity: u32,
    pub falloff: u32,
    /// One if occluders block this light, zero if not.
    pub cast_shadows: u32,
}

/// A visible rectangular occluder, as the passes read it.
#[derive(Clone, Copy, Debug, PartialEq, Eq, Structural)]
pub struct ExtractedLightOccluder2d {
    pub half_size: HalfSize,
    pub center: Vec2,
}

/// The ambient light of one view: its color, already multiplied by its
/// brightness.
#[derive(Clone, Copy, Debug, PartialEq, Eq, Structural)]
pub struct ExtractedAmbientLight2d {
    pub color: LinearRgba,
}

impl ExtractedPointLight2d {
    /// The snapshot of a light that is at `position`.
    pub open spec fn of(bundle: PointLight2dBundle, position: Vec2) -> ExtractedPointLight2d {
        ExtractedPointLight2d {
            transform: position,
            radius: bundle.point_light.radius,
            color: bundle.point_light.color,
            intensity: bundle.point_light.intensity,
            falloff: bundle.point_light.falloff,
            cast_shadows: if bundle.point_light.cast_shadows {
                1
            } else {
                0
            },
        }
    }

    /// The snapshot of a light if it is visible and has a position. A light
    /// without a position is dropped for the frame.
    pub open spec fn of_visible(bundle: PointLight2dBundle) -> Option<ExtractedPointLight2d> {
        match bundle.position {
            Some(position) if bundle.view_visibility => Some(Self::of(bundle, position)),
            _ => None,
        }
    }

    /// Snapshots a light, unless it is not visible or has no position.
    pub fn extract(bundle: &PointLight2dBundle) -> (extracted: Option<ExtractedPointLight2d>)
        ensures
            extracted == Self::of_visible(*bundle),
    {
        if !bundle.view_visibility {
            return None;
        }
        let position = match bundle.position {
            Some(position) => position,
            None => {
                return None;
            },
        };
        Some(
            ExtractedPointLight2d {
                color: bundle.point_light.color,
                transform: position,
                radius: bundle.point_light.radius,
                intensity: bundle.point_light.intensity,
                falloff: bundle.point_light.falloff,
                cast_shadows: if bundle.point_light.cast_shadows {
                    1
                } else {
                    0
                },
            },
        )
    }
}

impl Default for ExtractedPointLight2d {
    fn default() -> (light: Self)
        ensures
            light == (ExtractedPointLight2d {
                transform: Vec2 { x: 0, y: 0 },
                radius: 0,
                color: LinearRgba::none_spec(),
                intensity: 0,
                falloff: 0,
                cast_shadows: 0,
            }),
    {
        ExtractedPointLight2d {
            transform: Vec2 { x: 0, y: 0 },
            radius: 0,
            color: LinearRgba::none(),
            intensity: 0,
            falloff: 0,
            cast_shadows: 0,
        }
    }
}

impl ExtractedLightOccluder2d {
    /// The snapshot of an occluder that is at `position`.
    pub open spec fn of(bundle: LightOccluder2dBundle, position: Vec2) -> ExtractedLightOccluder2d {
        match bundle.light_occluder.shape {
            LightOccluder2dShape::Rectangle { half_size } => ExtractedLightOccluder2d {
                half_size,
                center: position,
            },
        }
    }

    /// The snapshot of an occluder if it is visible and has a position. An
    /// occluder without a position is dropped for the frame.
    pub open spec fn of_visible(bundle: LightOccluder2dBundle) -> Option<
        ExtractedLightOccluder2d,
    > {
        match bundle.position {
            Some(position) if bundle.view_visibility => Some(Self::of(bundle, position)),
            _ => None,
        }
    }

    /// Snapshots an occluder, unless it is not visible or has no position.
    pub fn extract(bundle: &LightOccluder2dBundle) -> (extracted: Option<ExtractedLightOccluder2d>)
        ensures
            extracted == Self::of_visible(*bundle),
    {
        if !bundle.view_visibility {
            return None;
        }
        let position = match bundle.position {
            Some(position) => position,
            None => {
                return None;
            },
        };
        let extracted_occluder = match bundle.light_occluder.shape {
            LightOccluder2dShape::Rectangle { half_size } => ExtractedLightOccluder2d {
                half_size,
                center: position,
            },
        };
        Some(extracted_occluder)
    }
}

impl ExtractedAmbientLight2d {
    /// The snapshot of a view's ambient light. A view without one is lit by
    /// white at brightness one, which leaves the scene as it is.
    pub open spec fn of(ambient_light: Option<AmbientLight2d>) -> ExtractedAmbientLight2d {
        match ambient_light {
            Some(light) => ExtractedAmbientLight2d {
                color: light.color.scaled(light.brightness as int),
            },
            None => ExtractedAmbientLight2d { color: LinearRgba::white_spec() },
        }
    }

    /// Snapshots the ambient light of a view, or the neutral one where the
    /// view has none.
    pub fn extract(ambient_light: Option<AmbientLight2d>) -> (extracted: ExtractedAmbientLight2d)
        ensures
            extracted == Self::of(ambient_light),
    {
        match ambient_light {
            Some(light) => ExtractedAmbientLight2d { color: light.color.scale(light.brightness) },
            None => ExtractedAmbientLight2d { color: LinearRgba::white() },
        }
    }
}

/// Snapshots the visible point lights, in the order in which the scene holds
/// them. A light that has no position is passed over. The scene is left as
/// it is.
pub fn extract_point_lights(point_lights: &Vec<PointLight2dBundle>) -> (extracted: Vec<
    ExtractedPointLight2d,
>)
    ensures
        extracted@ == point_lights@.filter_map(
            |bundle: PointLight2dBundle| ExtractedPointLight2d::of_visible(bundle),
        ),
{
    let ghost select = |bundle: PointLight2dBundle| ExtractedPointLight2d::of_visible(bundle);
    let mut extracted: Vec<ExtractedPointLight2d> = Vec::new();
    let mut i: usize = 0;
    while i < point_lights.len()
        invariant
            i <= point_lights.len(),
            select == |bundle: PointLight2dBundle| ExtractedPointLight2d::of_visible(bundle),
            extracted@ == point_lights@.take(i as int).filter_map(select),
        decreases point_lights.len() - i,
    {
        proof {
            point_lights@.lemma_filter_map_take_succ(select, i as int);
        }
        if let Some(point_light) = ExtractedPointLight2d::extract(&point_lights[i]) {
            extracted.push(point_light);
        }
        i += 1;
    }
    proof {
        point_lights@.lemma_take_len();
    }
    extracted
}

/// Snapshots the visible occluders, in the order in which the scene holds
/// them. An occluder that has no position is passed over. The scene is left
/// as it is.
pub fn extract_light_occluders(light_occluders: &Vec<LightOccluder2dBundle>) -> (extracted: Vec<
    ExtractedLightOccluder2d,
>)
    ensures
        extracted@ == light_occluders@.filter_map(
            |bundle: LightOccluder2dBundle| ExtractedLightOccluder2d::of_visible(bundle),
        ),
{
    let ghost select = |bundle: LightOccluder2dBundle| ExtractedLightOccluder2d::of_visible(bundle);
    let mut extracted: Vec<ExtractedLightOccluder2d> = Vec::new();
    let mut i: usize = 0;
    while i < light_occluders.len()
        invariant
            i <= light_occluders.len(),
            select == |bundle: LightOccluder2dBundle| ExtractedLightOccluder2d::of_visible(bundle),
            extracted@ == light_occluders@.take(i as int).filter_map(select),
        decreases light_occluders.len() - i,
    {
        proof {
            light_occluders@.lemma_filter_map_take_succ(select, i as int);
        }
        if let Some(light_occluder) = ExtractedLightOccluder2d::extract(&light_occluders[i]) {
            extracted.push(light_occluder);
        }
        i += 1;
    }
    proof {
        light_occluders@.lemma_take_len();
    }
    extracted
}

/// Snapshots the ambient light of every view: one record per view, in order.
/// A view that has no ambient light gets the neutral one.
pub fn extract_ambient_lights(views: &Vec<Option<AmbientLight2d>>) -> (extracted: Vec<
    ExtractedAmbientLight2d,
>)
    ensures
        extracted@ == views@.map_values(
            |ambient_light: Option<AmbientLight2d>| ExtractedAmbientLight2d::of(ambient_light),
        ),
        extracted@.len() == views@.len(),
{
    let ghost snapshot = |ambient_light: Option<AmbientLight2d>|
        ExtractedAmbientLight2d::of(ambient_light);
    let mut extracted: Vec<ExtractedAmbientLight2d> = Vec::new();
    let mut i: usize = 0;
    while i < views.len()
        invariant
            i <= views.len(),
            snapshot == |ambient_light: Option<AmbientLight2d>|
                ExtractedAmbientLight2d::of(ambient_light),
            extracted@ == views@.take(i as int).map_values(snapshot),
        decreases views.len() - i,
    {
        proof {
            views@.lemma_map_take_succ(snapshot, i as int);
        }
        extracted.push(ExtractedAmbientLight2d::extract(views[i]));
        i += 1;
    }
    proof {
        views@.lemma_take_len();
    }
    extracted
}

} // verus!
