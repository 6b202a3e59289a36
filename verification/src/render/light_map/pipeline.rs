use vstd::prelude::*;
use crate::render::render_resource::{
    BindingType,
    DeviceLimits,
    RenderPipelineDescriptor,
    Shader,
    TextureFormat,
    FRAGMENT_ENTRY_POINT,
};

verus! {

pub const LIGHT_MAP_BIND_GROUP_LAYOUT: &'static str = "light_map_group_layout";

pub const LIGHT_MAP_PIPELINE: &'static str = "light_map_pipeline";

/// What the light map pass is drawn with.
#[derive(Debug, PartialEq, Eq, Clone)]
pub struct LightMapPipeline {
    /// The bind group's slots, in order.
    pub layout: Vec<BindingType>,
    pub descriptor: RenderPipelineDescriptor,
}

impl LightMapPipeline {
    /// The bind group's slots: the view's transforms, the ambient light, the
    /// point lights, their number, the distance field and its sampler.
    pub open spec fn layout_spec(limits: DeviceLimits) -> Seq<BindingType> {
        seq![
            BindingType::UniformBuffer { has_dynamic_offset: true },
            BindingType::UniformBuffer { has_dynamic_offset: true },
            BindingType::array_spec(limits),
            BindingType::UniformBuffer { has_dynamic_offset: false },
            BindingType::Texture2d,
            BindingType::Sampler,
        ]
    }

    /// The pipeline: the light map is written in the extended-range format.
    pub open spec fn descriptor_spec() -> RenderPipelineDescriptor {
        RenderPipelineDescriptor {
            label: LIGHT_MAP_PIPELINE,
            shader: Shader::LightMap,
            entry_point: FRAGMENT_ENTRY_POINT,
            format: TextureFormat::Rgba16Float,
        }
    }

    /// Lays out the pass for the device. Done once, at startup.
    pub fn from_world(limits: DeviceLimits) -> (pipeline: Self)
        ensures
            pipeline.layout@ == Self::layout_spec(limits),
            pipeline.descriptor == Self::descriptor_spec(),
    {
        let mut layout: Vec<BindingType> = Vec::new();
        layout.push(BindingType::UniformBuffer { has_dynamic_offset: true });
        layout.push(BindingType::UniformBuffer { has_dynamic_offset: true });
        layout.push(BindingType::array(limits));
        layout.push(BindingType::UniformBuffer { has_dynamic_offset: false });
        layout.push(BindingType::Texture2d);
        layout.push(BindingType::Sampler);
        assert(layout@ =~= Self::layout_spec(limits));
        LightMapPipeline {
            layout,
            descriptor: RenderPipelineDescriptor {
                label: LIGHT_MAP_PIPELINE,
                shader: Shader::LightMap,
                entry_point: FRAGMENT_ENTRY_POINT,
                format: TextureFormat::Rgba16Float,
            },
        }
    }
}

} // verus!
