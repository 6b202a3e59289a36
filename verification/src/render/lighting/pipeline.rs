use vstd::prelude::*;
use crate::render::lighting::LightingPipelineKey;
use crate::render::render_resource::{
    BindingType,
    RenderPipelineDescriptor,
    Shader,
    TextureFormat,
    FRAGMENT_ENTRY_POINT,
};

verus! {

pub const LIGHTING_PIPELINE: &'static str = "lighting_pipeline";

pub const LIGHTING_BIND_GROUP_LAYOUT: &'static str = "lighting_bind_group_layout";

/// What the compositing pass is drawn with.
#[derive(Debug, PartialEq, Eq, Clone)]
pub struct LightingPipeline {
    /// The bind group's slots, in order.
    pub layout: Vec<BindingType>,
}

impl LightingPipeline {
    /// The bind group's slots: the rendered scene, the light map, and the
    /// sampler that both are read with.
    pub open spec fn layout_spec() -> Seq<BindingType> {
        seq![BindingType::Texture2d, BindingType::Texture2d, BindingType::Sampler]
    }

    /// The output format of a view: extended-range or standard.
    pub open spec fn format(key: LightingPipelineKey) -> TextureFormat {
        if key.hdr {
            TextureFormat::Rgba16Float
        } else {
            TextureFormat::Rgba8UnormSrgb
        }
    }

    /// Lays out the pass. Done once, at startup.
    pub fn from_world() -> (pipeline: Self)
        ensures
            pipeline.layout@ == Self::layout_spec(),
    {
        let mut layout: Vec<BindingType> = Vec::new();
        layout.push(BindingType::Texture2d);
        layout.push(BindingType::Texture2d);
        layout.push(BindingType::Sampler);
        assert(layout@ =~= Self::layout_spec());
        LightingPipeline { layout }
    }

    /// The variant of the pipeline that writes the format of the views that
    /// `key` stands for.
    pub fn specialize(&self, key: LightingPipelineKey) -> (descriptor: RenderPipelineDescriptor)
        ensures
            descriptor == (RenderPipelineDescriptor {
                label: LIGHTING_PIPELINE,
                shader: Shader::Lighting,
                entry_point: FRAGMENT_ENTRY_POINT,
                format: Self::format(key),
            }),
    {
        RenderPipelineDescriptor {
            label: LIGHTING_PIPELINE,
            shader: Shader::Lighting,
            entry_point: FRAGMENT_ENTRY_POINT,
            format: if key.hdr {
                TextureFormat::Rgba16Float
            } else {
                TextureFormat::Rgba8UnormSrgb
            },
        }
    }
}

} // verus!
