//! Light components.

use vstd::prelude::*;
use crate::math::{LinearRgba, Vec2, ONE};

verus! {

/// A light that provides illumination in all directions.
///
/// Attenuation is a variation of inverse square falloff: the light
/// illuminates only what lies within its radius, fully at its center and not
/// at all on the boundary.
#[derive(Clone, Copy, Debug, PartialEq, Eq, Structural)]
pub struct PointLight2d {
    /// The light's color tint.
    pub color: LinearRgba,
    /// The light's attenuation is multiplied by this value: the higher the
    /// intensity, the brighter the light.
    pub intensity: u32,
    /// Illumination only occurs within this distance of the light.
    pub radius: u32,
    /// How quickly illumination deteriorates over distance. A higher value
    /// gives less illumination near the light's boundary.
    pub falloff: u32,
    /// Whether occluders block this light.
    pub cast_shadows: bool,
}

impl PointLight2d {
    /// A white light of diameter one that casts no shadows.
    pub open spec fn default_spec() -> PointLight2d {
        PointLight2d {
            color: LinearRgba::white_spec(),
            intensity: 65536,
            radius: 32768,
            falloff: 0,
            cast_shadows: false,
        }
    }
}

impl Default for PointLight2d {
    /// Returns a white light of diameter one.
    fn default() -> (light: Self)
        ensures
            light == PointLight2d::default_spec(),
    {
        PointLight2d {
            color: LinearRgba::white(),
            intensity: ONE,
            radius: ONE / 2,
            falloff: 0,
            cast_shadows: false,
        }
    }
}

/// A point light together with where it is and whether it can be seen.
#[derive(Clone, Copy, Debug, PartialEq, Eq, Structural)]
pub struct PointLight2dBundle {
    /// The rendering properties of the point light, such as color and radius.
    pub point_light: PointLight2d,
    /// The light's position in world space; none where the light's transform
    /// does not place it in the world that the passes cover.
    pub position: Option<Vec2>,
    /// Whether the light is visible and should be extracted for rendering.
    pub view_visibility: bool,
}

impl PointLight2dBundle {
    /// The default light at the origin, not visible.
    pub open spec fn default_spec() -> PointLight2dBundle {
        PointLight2dBundle {
            point_light: PointLight2d::default_spec(),
            position: Some(Vec2 { x: 0, y: 0 }),
            view_visibility: false,
        }
    }
}

impl Default for PointLight2dBundle {
    fn default() -> (bundle: Self)
        ensures
            bundle == PointLight2dBundle::default_spec(),
    {
        PointLight2dBundle {
            point_light: PointLight2d::default(),
            position: Some(Vec2 { x: 0, y: 0 }),
            view_visibility: false,
        }
    }
}

/// How much ambient light to apply to a view.
///
/// - For a darker scene, use a brightness between zero and one.
/// - For a brighter scene, use a brightness greater than one.
/// - A brightness of zero gives a completely black scene.
#[derive(Clone, Copy, Debug, PartialEq, Eq, Structural)]
pub struct AmbientLight2d {
    /// The ambient light's color tint.
    pub color: LinearRgba,
    /// Multiplied against the ambient light's color.
    pub brightness: u32,
}

impl AmbientLight2d {
    /// White at brightness one, which is the same as no ambient light.
    pub open spec fn default_spec() -> AmbientLight2d {
        AmbientLight2d { color: LinearRgba::white_spec(), brightness: 65536 }
    }
}

impl Default for AmbientLight2d {
    /// Returns a white ambient light with a brightness of one.
    fn default() -> (light: Self)
        ensures
            light == AmbientLight2d::default_spec(),
    {
        AmbientLight2d { color: LinearRgba::white(), brightness: ONE }
    }
}

} // verus!
