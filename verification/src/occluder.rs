//! Occluder components.

use vstd::prelude::*;
use crate::math::{HalfSize, Vec2};

verus! {

/// Shape data for a light occluder.
#[derive(Clone, Copy, Debug, PartialEq, Eq, Structural)]
pub enum LightOccluder2dShape {
    /// A rectangular light occluder.
    Rectangle {
        /// Half of the width and height of the rectangle.
        half_size: HalfSize,
    },
}

impl LightOccluder2dShape {
    /// A rectangle with no extent.
    pub open spec fn default_spec() -> LightOccluder2dShape {
        LightOccluder2dShape::Rectangle { half_size: HalfSize { x: 0, y: 0 } }
    }
}

impl Default for LightOccluder2dShape {
    fn default() -> (shape: Self)
        ensures
            shape == LightOccluder2dShape::default_spec(),
    {
        LightOccluder2dShape::Rectangle { half_size: HalfSize { x: 0, y: 0 } }
    }
}

/// A light occluder that prevents light passing through it, casting shadows.
#[derive(Clone, Copy, Debug, PartialEq, Eq, Structural)]
pub struct LightOccluder2d {
    /// The shape of the light occluder.
    pub shape: LightOccluder2dShape,
}

impl Default for LightOccluder2d {
    fn default() -> (occluder: Self)
        ensures
            occluder.shape == LightOccluder2dShape::default_spec(),
    {
        LightOccluder2d { shape: LightOccluder2dShape::default() }
    }
}

/// A light occluder together with where it is and whether it can be seen.
#[derive(Clone, Copy, Debug, PartialEq, Eq, Structural)]
pub struct LightOccluder2dBundle {
    /// The rendering properties of the light occluder.
    pub light_occluder: LightOccluder2d,
    /// The occluder's center in world space; none where the occluder's
    /// transform does not place it in the world that the passes cover.
    pub position: Option<Vec2>,
    /// Whether the occluder is visible and should be extracted for rendering.
    pub view_visibility: bool,
}

impl Default for LightOccluder2dBundle {
    fn default() -> (bundle: Self)
        ensures
            bundle.light_occluder.shape == LightOccluder2dShape::default_spec(),
            bundle.position == Some(Vec2 { x: 0, y: 0 }),
            !bundle.view_visibility,
    {
        LightOccluder2dBundle {
            light_occluder: LightOccluder2d::default(),
            position: Some(Vec2 { x: 0, y: 0 }),
            view_visibility: false,
        }
    }
}

} // verus!
