//! The third pass: compositing the light map onto the scene.

pub mod fragment;
pub mod node;
pub mod pipeline;
pub mod prepare;

use vstd::prelude::*;
use crate::render::frame_graph::FrameNode;
use crate::render::render_resource::CachedRenderPipelineId;

pub use node::LightingNode;
pub use pipeline::LightingPipeline;
pub use prepare::prepare_lighting_pipelines;

verus! {

/// The identity of the compositing shader.
pub const LIGHTING_SHADER: u128 = 0x22ed6ffe_b47d_4b88_b986_5b0e87b3a240;

/// The label of the compositing pass in the render graph.
#[derive(Debug, Hash, PartialEq, Eq, Clone, Copy, Structural)]
pub struct LightingPass;

impl LightingPass {
    /// The node of the frame graph that the label stands for.
    pub fn node(&self) -> (node: FrameNode)
        ensures
            node == FrameNode::LightingPass,
    {
        FrameNode::LightingPass
    }
}

/// What the compositing pipeline is specialized by.
#[derive(Clone, Copy, Debug, PartialEq, Eq, Hash, Structural)]
pub struct LightingPipelineKey {
    /// Whether the view renders in the extended-range format.
    pub hdr: bool,
}

/// The compositing pipeline of one view.
#[derive(Clone, Copy, Debug, PartialEq, Eq, Structural)]
pub struct LightingPipelineId(pub CachedRenderPipelineId);

} // verus!
