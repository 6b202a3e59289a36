use vstd::prelude::*;
use crate::render::extract::ExtractedLightOccluder2d;
use crate::render::render_resource::{Extent3d, TextureDescriptor};
use crate::render::sdf::{OccluderMeta, OccluderMetaBuffer, SdfTexture};

verus! {

pub const SDF_TEXTURE: &'static str = "sdf_texture";

/// Describes, for every view, the texture that its distance field is written
/// to: as large as the view's main texture.
pub fn prepare_sdf_texture(view_targets: &Vec<Extent3d>) -> (textures: Vec<SdfTexture>)
    ensures
        textures@.len() == view_targets@.len(),
        forall|i: int|
            0 <= i < view_targets@.len() ==> (#[trigger] textures@[i]).sdf
                == TextureDescriptor::intermediate_spec(SDF_TEXTURE, view_targets@[i]),
{
    let mut textures: Vec<SdfTexture> = Vec::new();
    let mut i: usize = 0;
    while i < view_targets.len()
        invariant
            i <= view_targets.len(),
            textures@.len() == i,
            forall|j: int|
                0 <= j < i ==> (#[trigger] textures@[j]).sdf
                    == TextureDescriptor::intermediate_spec(SDF_TEXTURE, view_targets@[j]),
        decreases view_targets.len() - i,
    {
        let sdf_texture = TextureDescriptor::intermediate(SDF_TEXTURE, view_targets[i]);
        textures.push(SdfTexture { sdf: sdf_texture });
        i += 1;
    }
    textures
}

/// Records how many occluders this frame has. The count is kept in 32 bits.
pub fn prepare_occluder_meta(
    occluders: &Vec<ExtractedLightOccluder2d>,
    occluder_meta_buffer: &mut OccluderMetaBuffer,
)
    ensures
        final(occluder_meta_buffer).buffer.count == occluders@.len() % 0x1_0000_0000,
{
    let meta = OccluderMeta::new((occluders.len() as u64 % 0x1_0000_0000) as u32);
    occluder_meta_buffer.buffer = meta;
}

} // verus!
