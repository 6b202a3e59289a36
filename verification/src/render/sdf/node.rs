use vstd::prelude::*;
use crate::render::offsets::{dynamic_offsets, DynamicOffsets};
use crate::render::render_resource::{
    ArrayBuffer,
    BindingResource,
    CachedRenderPipelineId,
    ColorAttachment,
    RenderPass,
};
use crate::render::world::RenderWorld;

verus! {

pub const SDF_PASS: &'static str = "sdf_pass";

pub const SDF_BIND_GROUP: &'static str = "sdf_bind_group";

/// The render graph node of the distance field pass.
#[derive(Default, Debug, Clone, Copy)]
pub struct SdfNode;

impl SdfNode {
    /// What the pass binds for the occluders: their array or, while there is
    /// no occluder, the placeholder.
    pub open spec fn light_occluders(world: RenderWorld) -> Option<BindingResource> {
        if world.light_occluders.is_some() {
            world.light_occluders
        } else if world.empty_buffer.buffer.is_some() {
            Some(BindingResource::EmptyBuffer)
        } else {
            None
        }
    }

    /// Whether the pass has everything it draws with.
    pub open spec fn ready(pipeline: Option<CachedRenderPipelineId>, world: RenderWorld) -> bool {
        pipeline.is_some() && world.view_uniforms.is_some() && Self::light_occluders(
            world,
        ).is_some()
    }

    /// `pass` is the pass as it is drawn for a view whose transforms are at
    /// `view_offset`.
    pub open spec fn draws(
        pass: RenderPass,
        view_offset: u32,
        pipeline: Option<CachedRenderPipelineId>,
        world: RenderWorld,
    ) -> bool {
        &&& pass.label == SDF_PASS
        &&& pass.bind_group_label == SDF_BIND_GROUP
        &&& Some(pass.pipeline) == pipeline
        &&& pass.bind_group@ == seq![
            world.view_uniforms.unwrap(),
            Self::light_occluders(world).unwrap(),
        ]
        &&& pass.color_attachment == ColorAttachment::SdfTexture
        &&& pass.dynamic_offsets@ == dynamic_offsets(
            seq![view_offset],
            world.limits.array_buffer_spec() == ArrayBuffer::Uniform,
        )
        &&& pass.vertices == 3
        &&& pass.instances == 1
    }

    /// Runs the pass for one view: a single draw that covers the viewport
    /// and writes the view's distance field. While the pipeline or one of the
    /// bindings is missing the pass is skipped for this frame.
    pub fn run(
        &self,
        view_offset: u32,
        pipeline: Option<CachedRenderPipelineId>,
        world: &RenderWorld,
    ) -> (pass: Option<RenderPass>)
        ensures
            pass.is_some() <==> Self::ready(pipeline, *world),
            pass matches Some(pass) ==> Self::draws(pass, view_offset, pipeline, *world),
    {
        let light_occluders = match world.light_occluders {
            Some(binding) => Some(binding),
            None => world.empty_buffer.binding(),
        };
        let (pipeline, view_uniform_binding, light_occluders_binding) = match (
            pipeline,
            world.view_uniforms,
            light_occluders,
        ) {
            (Some(pipeline), Some(view_uniforms), Some(light_occluders)) => (
                pipeline,
                view_uniforms,
                light_occluders,
            ),
            _ => {
                return None;
            },
        };
        let mut bind_group: Vec<BindingResource> = Vec::new();
        bind_group.push(view_uniform_binding);
        bind_group.push(light_occluders_binding);
        assert(bind_group@ =~= seq![view_uniform_binding, light_occluders_binding]);

        // Storage buffers are not to be had everywhere. Where the occluders are
        // in a uniform buffer, its offset has to be given too.
        let dynamic_offsets = DynamicOffsets::new(
            view_offset,
            None,
            matches!(world.limits.array_buffer(), ArrayBuffer::Uniform),
        );

        Some(
            RenderPass {
                label: SDF_PASS,
                bind_group_label: SDF_BIND_GROUP,
                pipeline,
                bind_group,
                color_attachment: ColorAttachment::SdfTexture,
                dynamic_offsets,
                vertices: 3,
                instances: 1,
            },
        )
    }
}

} // verus!
