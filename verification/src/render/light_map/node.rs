use vstd::prelude::*;
use crate::render::offsets::{dynamic_offsets, DynamicOffsets};
use crate::render::render_resource::{
    ArrayBuffer,
    BindingResource,
    CachedRenderPipelineId,
    ColorAttachment,
    RenderPass,
};
use crate::render::world::RenderWorld;

verus! {

pub const LIGHT_MAP_PASS: &'static str = "light_map_pass";

pub const LIGHT_MAP_BIND_GROUP: &'static str = "light_map_bind_group";

/// The render graph node of the light map pass.
#[derive(Default, Debug, Clone, Copy)]
pub struct LightMapNode;

impl LightMapNode {
    /// What the pass binds for the point lights: their array or, while there
    /// is no light, the placeholder.
    pub open spec fn point_lights(world: RenderWorld) -> Option<BindingResource> {
        if world.point_lights.is_some() {
            world.point_lights
        } else if world.empty_buffer.buffer.is_some() {
            Some(BindingResource::EmptyBuffer)
        } else {
            None
        }
    }

    /// Whether the pass has everything it draws with.
    pub open spec fn ready(pipeline: Option<CachedRenderPipelineId>, world: RenderWorld) -> bool {
        &&& pipeline.is_some()
        &&& world.view_uniforms.is_some()
        &&& world.ambient_lights.is_some()
        &&& Self::point_lights(world).is_some()
        &&& world.point_light_meta.is_some()
    }

    /// `pass` is the pass as it is drawn for a view whose transforms are at
    /// `view_offset` and whose ambient light is at `ambient_index`.
    pub open spec fn draws(
        pass: RenderPass,
        ambient_index: u32,
        view_offset: u32,
        pipeline: Option<CachedRenderPipelineId>,
        world: RenderWorld,
    ) -> bool {
        &&& pass.label == LIGHT_MAP_PASS
        &&& pass.bind_group_label == LIGHT_MAP_BIND_GROUP
        &&& Some(pass.pipeline) == pipeline
        &&& pass.bind_group@ == seq![
            world.view_uniforms.unwrap(),
            world.ambient_lights.unwrap(),
            Self::point_lights(world).unwrap(),
            world.point_light_meta.unwrap(),
            BindingResource::SdfTexture,
            BindingResource::Sampler,
        ]
        &&& pass.color_attachment == ColorAttachment::LightMapTexture
        &&& pass.dynamic_offsets@ == dynamic_offsets(
            seq![view_offset, ambient_index],
            world.limits.array_buffer_spec() == ArrayBuffer::Uniform,
        )
        &&& pass.vertices == 3
        &&& pass.instances == 1
    }

    /// Runs the pass for one view: a single draw that covers the viewport,
    /// reads the view's distance field and writes its light map. While the
    /// pipeline or one of the bindings is missing the pass is skipped for
    /// this frame.
    pub fn run(
        &self,
        ambient_index: u32,
        view_offset: u32,
        pipeline: Option<CachedRenderPipelineId>,
        world: &RenderWorld,
    ) -> (pass: Option<RenderPass>)
        ensures
            pass.is_some() <==> Self::ready(pipeline, *world),
            pass matches Some(pass) ==> Self::draws(
                pass,
                ambient_index,
                view_offset,
                pipeline,
                *world,
            ),
    {
        let point_lights = match world.point_lights {
            Some(binding) => Some(binding),
            None => world.empty_buffer.binding(),
        };
        let (
            pipeline,
            view_uniform_binding,
            ambient_light_uniform,
            point_light_binding,
            point_light_count_binding,
        ) = match (
            pipeline,
            world.view_uniforms,
            world.ambient_lights,
            point_lights,
            world.point_light_meta,
        ) {
            (
                Some(pipeline),
                Some(view_uniforms),
                Some(ambient_lights),
                Some(point_lights),
                Some(point_light_meta),
            ) => (pipeline, view_uniforms, ambient_lights, point_lights, point_light_meta),
            _ => {
                return None;
            },
        };
        let mut bind_group: Vec<BindingResource> = Vec::new();
        bind_group.push(view_uniform_binding);
        bind_group.push(ambient_light_uniform);
        bind_group.push(point_light_binding);
        bind_group.push(point_light_count_binding);
        bind_group.push(BindingResource::SdfTexture);
        bind_group.push(BindingResource::Sampler);
        assert(bind_group@ =~= seq![
            view_uniform_binding,
            ambient_light_uniform,
            point_light_binding,
            point_light_count_binding,
            BindingResource::SdfTexture,
            BindingResource::Sampler,
        ]);

        // Storage buffers are not to be had everywhere. Where the point lights
        // are in a uniform buffer, its offset has to be given too.
        let light_map_offsets = DynamicOffsets::new(
            view_offset,
            Some(ambient_index),
            matches!(world.limits.array_buffer(), ArrayBuffer::Uniform),
        );

        Some(
            RenderPass {
                label: LIGHT_MAP_PASS,
                bind_group_label: LIGHT_MAP_BIND_GROUP,
                pipeline,
                bind_group,
                color_attachment: ColorAttachment::LightMapTexture,
                dynamic_offsets: light_map_offsets,
                vertices: 3,
                instances: 1,
            },
        )
    }
}

} // verus!
