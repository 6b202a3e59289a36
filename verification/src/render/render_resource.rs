//! Plain descriptions of the GPU resources that the passes ask for. The
//! resources themselves are created from these by whoever owns the device.

use vstd::prelude::*;
use crate::render::offsets::DynamicOffsets;

verus! {

/// The name of the fragment shaders' entry point.
pub const FRAGMENT_ENTRY_POINT: &'static str = "fragment";

/// What the device can do, as far as the passes care.
#[derive(Clone, Copy, Debug, PartialEq, Eq, Structural)]
pub struct DeviceLimits {
    /// How many storage buffers a shader stage may bind.
    pub max_storage_buffers_per_shader_stage: u32,
}

/// How an array of records reaches the shaders.
#[derive(Clone, Copy, Debug, PartialEq, Eq, Structural)]
pub enum ArrayBuffer {
    /// A uniform buffer of fixed capacity, bound at a dynamic offset.
    Uniform,
    /// A storage buffer that grows with the number of records.
    Storage,
}

impl DeviceLimits {
    /// Where the device has no storage buffers, arrays fall back to uniform
    /// buffers.
    pub open spec fn array_buffer_spec(self) -> ArrayBuffer {
        if self.max_storage_buffers_per_shader_stage == 0 {
            ArrayBuffer::Uniform
        } else {
            ArrayBuffer::Storage
        }
    }

    /// How arrays reach the shaders on this device.
    #[verifier::when_used_as_spec(array_buffer_spec)]
    pub fn array_buffer(self) -> (kind: ArrayBuffer)
        ensures
            kind == self.array_buffer_spec(),
    {
        if self.max_storage_buffers_per_shader_stage == 0 {
            ArrayBuffer::Uniform
        } else {
            ArrayBuffer::Storage
        }
    }
}

/// The color formats that the passes render to.
#[derive(Clone, Copy, Debug, PartialEq, Eq, Structural)]
pub enum TextureFormat {
    /// Eight bits per channel, sRGB: the standard output format.
    Rgba8UnormSrgb,
    /// Sixteen-bit floats per channel: the extended-range format.
    Rgba16Float,
}

/// The size of a texture.
#[derive(Clone, Copy, Debug, PartialEq, Eq, Structural)]
pub struct Extent3d {
    pub width: u32,
    pub height: u32,
    pub depth_or_array_layers: u32,
}

/// What a texture may be used for.
#[derive(Clone, Copy, Debug, PartialEq, Eq, Structural)]
pub struct TextureUsages {
    pub render_attachment: bool,
    pub texture_binding: bool,
}

/// A two-dimensional texture to be created.
#[derive(Clone, Copy, Debug, PartialEq, Eq)]
pub struct TextureDescriptor {
    pub label: &'static str,
    pub size: Extent3d,
    pub mip_level_count: u32,
    pub sample_count: u32,
    pub format: TextureFormat,
    pub usage: TextureUsages,
}

impl TextureDescriptor {
    /// A single-sampled texture without mip levels, to be rendered to by one
    /// pass and sampled by the next: what the intermediate results of the
    /// passes are kept in.
    pub open spec fn intermediate_spec(label: &'static str, size: Extent3d) -> TextureDescriptor {
        TextureDescriptor {
            label,
            size,
            mip_level_count: 1,
            sample_count: 1,
            format: TextureFormat::Rgba16Float,
            usage: TextureUsages { render_attachment: true, texture_binding: true },
        }
    }

    /// Describes the texture that holds an intermediate result of the given
    /// size.
    pub fn intermediate(label: &'static str, size: Extent3d) -> (descriptor: TextureDescriptor)
        ensures
            descriptor == Self::intermediate_spec(label, size),
    {
        TextureDescriptor {
            label,
            size,
            mip_level_count: 1,
            sample_count: 1,
            format: TextureFormat::Rgba16Float,
            usage: TextureUsages { render_attachment: true, texture_binding: true },
        }
    }
}

/// What a buffer may be used for.
#[derive(Clone, Copy, Debug, PartialEq, Eq, Structural)]
pub struct BufferUsages {
    pub copy_dst: bool,
    pub storage: bool,
    pub uniform: bool,
}

/// A buffer to be created.
#[derive(Clone, Copy, Debug, PartialEq, Eq)]
pub struct BufferDescriptor {
    pub label: &'static str,
    /// The size in bytes.
    pub size: u64,
    pub usage: BufferUsages,
    pub mapped_at_creation: bool,
}

/// The kind of resource that a slot of a bind group layout takes. Every slot
/// is visible to the fragment stage only.
#[derive(Clone, Copy, Debug, PartialEq, Eq, Structural)]
pub enum BindingType {
    /// A uniform buffer, bound at an offset chosen per draw or not.
    UniformBuffer { has_dynamic_offset: bool },
    /// A storage buffer that shaders only read.
    StorageBufferReadOnly,
    /// A two-dimensional texture of floats that can be sampled with
    /// filtering.
    Texture2d,
    /// A sampler that filters.
    Sampler,
}

impl BindingType {
    /// The layout of an array of records: a read-only storage buffer, or a
    /// uniform buffer at a dynamic offset where storage buffers are not to be
    /// had.
    pub open spec fn array_spec(limits: DeviceLimits) -> BindingType {
        match limits.array_buffer_spec() {
            ArrayBuffer::Uniform => BindingType::UniformBuffer { has_dynamic_offset: true },
            ArrayBuffer::Storage => BindingType::StorageBufferReadOnly,
        }
    }

    /// The layout of an array of records on this device.
    pub fn array(limits: DeviceLimits) -> (ty: BindingType)
        ensures
            ty == Self::array_spec(limits),
    {
        match limits.array_buffer() {
            ArrayBuffer::Uniform => BindingType::UniformBuffer { has_dynamic_offset: true },
            ArrayBuffer::Storage => BindingType::StorageBufferReadOnly,
        }
    }
}

/// A pipeline that has been queued for creation.
#[derive(Clone, Copy, Debug, PartialEq, Eq, Hash, Structural)]
pub struct CachedRenderPipelineId(pub usize);

/// A resource that a pass binds.
#[derive(Clone, Copy, Debug, PartialEq, Eq, Structural)]
pub enum BindingResource {
    /// The view's transforms.
    ViewUniforms,
    /// The views' ambient lights.
    AmbientLights,
    /// The array of point lights.
    PointLights,
    /// The array of occluders.
    LightOccluders,
    /// The placeholder that stands in for an array without records.
    EmptyBuffer,
    /// The number of point lights.
    PointLightMeta,
    /// The distance field.
    SdfTexture,
    /// The light map.
    LightMapTexture,
    /// The rendered scene: the texture that post-processing reads.
    PostProcessSource,
    /// The sampler that the pass's textures are read with.
    Sampler,
}

/// The texture that a pass renders to.
#[derive(Clone, Copy, Debug, PartialEq, Eq, Structural)]
pub enum ColorAttachment {
    /// The distance field.
    SdfTexture,
    /// The light map.
    LightMapTexture,
    /// The texture that post-processing writes: never the one it reads.
    PostProcessDestination,
}

impl ColorAttachment {
    /// The binding through which a pass reads what was written to this
    /// texture. What post-processing writes is read by no pass of this crate.
    pub open spec fn binding(self) -> Option<BindingResource> {
        match self {
            ColorAttachment::SdfTexture => Some(BindingResource::SdfTexture),
            ColorAttachment::LightMapTexture => Some(BindingResource::LightMapTexture),
            ColorAttachment::PostProcessDestination => None,
        }
    }
}

/// The shaders of the three passes.
#[derive(Clone, Copy, Debug, PartialEq, Eq, Structural)]
pub enum Shader {
    Sdf,
    LightMap,
    Lighting,
}

/// A render pipeline to be created: a full-screen triangle whose fragments
/// are shaded by `shader` and written, without blending, to a single target
/// of the given format.
#[derive(Clone, Copy, Debug, PartialEq, Eq)]
pub struct RenderPipelineDescriptor {
    pub label: &'static str,
    pub shader: Shader,
    pub entry_point: &'static str,
    pub format: TextureFormat,
}

/// One pass over a view: a single draw that covers the whole viewport.
#[derive(Debug)]
pub struct RenderPass {
    pub label: &'static str,
    pub bind_group_label: &'static str,
    /// The pipeline that the pass draws with.
    pub pipeline: CachedRenderPipelineId,
    /// What the bind group holds, slot by slot.
    pub bind_group: Vec<BindingResource>,
    pub color_attachment: ColorAttachment,
    pub dynamic_offsets: DynamicOffsets,
    /// The vertices drawn: a triangle that covers the viewport.
    pub vertices: u32,
    pub instances: u32,
}

impl RenderPass {
    /// Whether the pass reads the resource.
    pub open spec fn reads(self, resource: BindingResource) -> bool {
        self.bind_group@.contains(resource)
    }

    /// Whether the pass reads what was written to the texture.
    pub open spec fn reads_texture(self, texture: ColorAttachment) -> bool {
        match texture.binding() {
            Some(binding) => self.reads(binding),
            None => false,
        }
    }
}

} // verus!
