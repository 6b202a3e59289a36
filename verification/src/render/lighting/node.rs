use vstd::prelude::*;
use crate::render::offsets::DynamicOffsets;
use crate::render::render_resource::{
    BindingResource,
    CachedRenderPipelineId,
    ColorAttachment,
    RenderPass,
};

verus! {

pub const LIGHTING_PASS: &'static str = "lighting_pass";

pub const LIGHTING_BIND_GROUP: &'static str = "lighting_bind_group";

/// The render graph node of the compositing pass.
#[derive(Default, Debug, Clone, Copy)]
pub struct LightingNode;

impl LightingNode {
    /// `pass` is the pass as it is drawn.
    pub open spec fn draws(pass: RenderPass, pipeline: Option<CachedRenderPipelineId>) -> bool {
        &&& pass.label == LIGHTING_PASS
        &&& pass.bind_group_label == LIGHTING_BIND_GROUP
        &&& Some(pass.pipeline) == pipeline
        &&& pass.bind_group@ == seq![
            BindingResource::PostProcessSource,
            BindingResource::LightMapTexture,
            BindingResource::Sampler,
        ]
        &&& pass.color_attachment == ColorAttachment::PostProcessDestination
        &&& pass.dynamic_offsets@ == Seq::<u32>::empty()
        &&& pass.vertices == 3
        &&& pass.instances == 1
    }

    /// Runs the pass for one view: a single draw that covers the viewport,
    /// reads the rendered scene and the view's light map, and writes their
    /// product to the texture that post-processing writes, which is never the
    /// one that it reads. While the view's pipeline is missing the pass is
    /// skipped for this frame.
    pub fn run(&self, pipeline: Option<CachedRenderPipelineId>) -> (pass: Option<RenderPass>)
        ensures
            pass.is_some() <==> pipeline.is_some(),
            pass matches Some(pass) ==> Self::draws(pass, pipeline),
    {
        let lighting_pipeline = match pipeline {
            Some(pipeline) => pipeline,
            None => {
                return None;
            },
        };
        let mut bind_group: Vec<BindingResource> = Vec::new();
        bind_group.push(BindingResource::PostProcessSource);
        bind_group.push(BindingResource::LightMapTexture);
        bind_group.push(BindingResource::Sampler);
        assert(bind_group@ =~= seq![
            BindingResource::PostProcessSource,
            BindingResource::LightMapTexture,
            BindingResource::Sampler,
        ]);
        Some(
            RenderPass {
                label: LIGHTING_PASS,
                bind_group_label: LIGHTING_BIND_GROUP,
                pipeline: lighting_pipeline,
                bind_group,
                color_attachment: ColorAttachment::PostProcessDestination,
                dynamic_offsets: DynamicOffsets::none(),
                vertices: 3,
                instances: 1,
            },
        )
    }
}

} // verus!
