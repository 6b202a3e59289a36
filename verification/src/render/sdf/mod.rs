//! The first pass: the distance field of the occluders.

pub mod fragment;
pub mod node;
pub mod pipeline;
pub mod prepare;

use vstd::prelude::*;
use crate::render::frame_graph::FrameNode;
use crate::render::render_resource::TextureDescriptor;

pub use node::SdfNode;
pub use pipeline::SdfPipeline;
pub use prepare::prepare_occluder_meta;
pub use prepare::prepare_sdf_texture;

verus! {

/// The identity of the distance field's shader.
pub const SDF_SHADER: u128 = 0x16251728_6dd9_481e_95a7_7c2e0ff8d920;

/// The label of the distance field pass in the render graph.
#[derive(Debug, Hash, PartialEq, Eq, Clone, Copy, Structural)]
pub struct SdfPass;

impl SdfPass {
    /// The node of the frame graph that the label stands for.
    pub fn node(&self) -> (node: FrameNode)
        ensures
            node == FrameNode::SdfPass,
    {
        FrameNode::SdfPass
    }
}

/// The texture that holds a view's distance field.
#[derive(Debug, PartialEq, Eq, Clone, Copy)]
pub struct SdfTexture {
    pub sdf: TextureDescriptor,
}

/// The uniform that tells the shader how many occluders there are.
#[derive(Debug, PartialEq, Eq, Clone, Copy, Structural)]
pub struct OccluderMetaBuffer {
    pub buffer: OccluderMeta,
}

/// How many occluders there are.
#[derive(Debug, PartialEq, Eq, Clone, Copy, Structural)]
pub struct OccluderMeta {
    pub count: u32,
}

impl OccluderMeta {
    pub fn new(count: u32) -> (meta: Self)
        ensures
            meta.count == count,
    {
        OccluderMeta { count }
    }
}

impl Default for OccluderMeta {
    fn default() -> (meta: Self)
        ensures
            meta.count == 0,
    {
        OccluderMeta { count: 0 }
    }
}

impl Default for OccluderMetaBuffer {
    fn default() -> (buffer: Self)
        ensures
            buffer.buffer.count == 0,
    {
        OccluderMetaBuffer { buffer: OccluderMeta::default() }
    }
}

} // verus!
