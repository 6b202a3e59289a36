//! What the passes find in the render world when they run.

use vstd::prelude::*;
use crate::render::empty_buffer::EmptyBuffer;
use crate::render::render_resource::{BindingResource, DeviceLimits};

verus! {

/// The resources of one frame. A binding is missing until the resource
/// behind it has been written.
#[derive(Clone, Copy, Debug, PartialEq, Eq)]
pub struct RenderWorld {
    pub limits: DeviceLimits,
    /// The views' transforms.
    pub view_uniforms: Option<BindingResource>,
    /// The views' ambient lights.
    pub ambient_lights: Option<BindingResource>,
    /// The array of point lights; missing while there is no light.
    pub point_lights: Option<BindingResource>,
    /// The array of occluders; missing while there is no occluder.
    pub light_occluders: Option<BindingResource>,
    /// The number of point lights.
    pub point_light_meta: Option<BindingResource>,
    /// The stand-in for a missing array.
    pub empty_buffer: EmptyBuffer,
}

impl RenderWorld {
    /// Each binding that is there is the binding of the resource that it is
    /// named after.
    pub open spec fn well_formed(self) -> bool {
        &&& self.view_uniforms.is_some() ==> self.view_uniforms == Some(BindingResource::ViewUniforms)
        &&& self.ambient_lights.is_some() ==> self.ambient_lights == Some(
            BindingResource::AmbientLights,
        )
        &&& self.point_lights.is_some() ==> self.point_lights == Some(BindingResource::PointLights)
        &&& self.light_occluders.is_some() ==> self.light_occluders == Some(
            BindingResource::LightOccluders,
        )
        &&& self.point_light_meta.is_some() ==> self.point_light_meta == Some(
            BindingResource::PointLightMeta,
        )
    }
}

} // verus!
