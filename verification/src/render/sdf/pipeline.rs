use vstd::prelude::*;
use crate::render::render_resource::{
    BindingType,
    DeviceLimits,
    RenderPipelineDescriptor,
    Shader,
    TextureFormat,
    FRAGMENT_ENTRY_POINT,
};

verus! {

pub const SDF_PIPELINE: &'static str = "sdf_pipeline";

pub const SDF_BIND_GROUP_LAYOUT: &'static str = "sdf_bind_group_layout";

/// What the distance field pass is drawn with.
#[derive(Debug, PartialEq, Eq, Clone)]
pub struct SdfPipeline {
    /// The bind group's slots, in order.
    pub layout: Vec<BindingType>,
    pub descriptor: RenderPipelineDescriptor,
}

impl SdfPipeline {
    /// The bind group's slots: the view's transforms, then the occluders.
    pub open spec fn layout_spec(limits: DeviceLimits) -> Seq<BindingType> {
        seq![
            BindingType::UniformBuffer { has_dynamic_offset: true },
            BindingType::array_spec(limits),
        ]
    }

    /// The pipeline: the distance field is written in the extended-range
    /// format.
    pub open spec fn descriptor_spec() -> RenderPipelineDescriptor {
        RenderPipelineDescriptor {
            label: SDF_PIPELINE,
            shader: Shader::Sdf,
            entry_point: FRAGMENT_ENTRY_POINT,
            format: TextureFormat::Rgba16Float,
        }
    }

    /// Lays out the pass for the device. Done once, at startup.
    pub fn from_world(limits: DeviceLimits) -> (pipeline: Self)
        ensures
            pipeline.layout@ == Self::layout_spec(limits),
            pipeline.descriptor == Self::descriptor_spec(),
    {
        let mut layout: Vec<BindingType> = Vec::new();
        layout.push(BindingType::UniformBuffer { has_dynamic_offset: true });
        layout.push(BindingType::array(limits));
        assert(layout@ =~= Self::layout_spec(limits));
        SdfPipeline {
            layout,
            descriptor: RenderPipelineDescriptor {
                label: SDF_PIPELINE,
                shader: Shader::Sdf,
                entry_point: FRAGMENT_ENTRY_POINT,
                format: TextureFormat::Rgba16Float,
            },
        }
    }
}

} // verus!
