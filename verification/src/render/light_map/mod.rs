//! The second pass: the light map.

pub mod attenuation;
pub mod fragment;
pub mod node;
pub mod occlusion;
pub mod pipeline;
pub mod prepare;
pub mod shadow;

use vstd::prelude::*;
use crate::render::frame_graph::FrameNode;
use crate::render::render_resource::TextureDescriptor;

pub use node::LightMapNode;
pub use pipeline::LightMapPipeline;
pub use prepare::{prepare_light_map_texture, prepare_point_light_count};

verus! {

/// The identity of the light map's shader.
pub const LIGHT_MAP_SHADER: u128 = 0x48777bb3_8a37_4b4d_a4f2_f10ff1ee4360;

/// The label of the light map pass in the render graph.
#[derive(Debug, Hash, PartialEq, Eq, Clone, Copy, Structural)]
pub struct LightMapPass;

impl LightMapPass {
    /// The node of the frame graph that the label stands for.
    pub fn node(&self) -> (node: FrameNode)
        ensures
            node == FrameNode::LightMapPass,
    {
        FrameNode::LightMapPass
    }
}

/// The texture that holds a view's light map.
#[derive(Debug, PartialEq, Eq, Clone, Copy)]
pub struct LightMapTexture {
    pub light_map: TextureDescriptor,
}

/// The uniform that tells the shader how many point lights there are.
#[derive(Debug, PartialEq, Eq, Clone, Copy, Structural)]
pub struct PointLightMetaBuffer {
    pub buffer: PointLightMeta,
}

/// How many point lights there are.
#[derive(Debug, PartialEq, Eq, Clone, Copy, Structural)]
pub struct PointLightMeta {
    pub count: u32,
}

impl PointLightMeta {
    pub fn new(count: u32) -> (meta: Self)
        ensures
            meta.count == count,
    {
        PointLightMeta { count }
    }
}

impl Default for PointLightMeta {
    fn default() -> (meta: Self)
        ensures
            meta.count == 0,
    {
        PointLightMeta { count: 0 }
    }
}

impl Default for PointLightMetaBuffer {
    fn default() -> (buffer: Self)
        ensures
            buffer.buffer.count == 0,
    {
        PointLightMetaBuffer { buffer: PointLightMeta::default() }
    }
}

} // verus!
