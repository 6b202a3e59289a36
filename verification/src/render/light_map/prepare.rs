use vstd::prelude::*;
use crate::render::extract::ExtractedPointLight2d;
use crate::render::light_map::{LightMapTexture, PointLightMeta, PointLightMetaBuffer};
use crate::render::render_resource::{Extent3d, TextureDescriptor};

verus! {

pub const LIGHT_MAP_TEXTURE: &'static str = "light_map_texture";

/// Describes, for every view, the texture that its light map is written to:
/// as large as the view's main texture, in the extended-range format, so
/// that lights that overlap are not clipped.
pub fn prepare_light_map_texture(view_targets: &Vec<Extent3d>) -> (textures: Vec<LightMapTexture>)
    ensures
        textures@.len() == view_targets@.len(),
        forall|i: int|
            0 <= i < view_targets@.len() ==> (#[trigger] textures@[i]).light_map
                == TextureDescriptor::intermediate_spec(LIGHT_MAP_TEXTURE, view_targets@[i]),
{
    let mut textures: Vec<LightMapTexture> = Vec::new();
    let mut i: usize = 0;
    while i < view_targets.len()
        invariant
            i <= view_targets.len(),
            textures@.len() == i,
            forall|j: int|
                0 <= j < i ==> (#[trigger] textures@[j]).light_map
                    == TextureDescriptor::intermediate_spec(LIGHT_MAP_TEXTURE, view_targets@[j]),
        decreases view_targets.len() - i,
    {
        let light_map_texture = TextureDescriptor::intermediate(LIGHT_MAP_TEXTURE, view_targets[i]);
        textures.push(LightMapTexture { light_map: light_map_texture });
        i += 1;
    }
    textures
}

/// Records how many point lights this frame has. The count is kept in 32
/// bits.
pub fn prepare_point_light_count(
    point_lights: &Vec<ExtractedPointLight2d>,
    point_light_count: &mut PointLightMetaBuffer,
)
    ensures
        final(point_light_count).buffer.count == point_lights@.len() % 0x1_0000_0000,
{
    let meta = PointLightMeta::new((point_lights.len() as u64 % 0x1_0000_0000) as u32);
    point_light_count.buffer = meta;
}

} // verus!
