//! Compositing: the light map laid over the rendered scene.

use vstd::prelude::*;
use crate::math::{lemma_mul_fixed_unit, LinearRgba};

verus! {

/// The color of a pixel once the light map is laid over the scene: the two
/// multiplied channel by channel. Light below one darkens, light above one
/// brightens. Without a light map the scene's color is kept.
pub open spec fn composite(scene: LinearRgba, light: Option<LinearRgba>) -> LinearRgba {
    match light {
        Some(light) => scene.modulated(light),
        None => scene,
    }
}

/// Light of exactly one in every channel leaves the scene as it is.
pub proof fn lemma_composite_identity(scene: LinearRgba)
    ensures
        composite(scene, Some(LinearRgba::white_spec())) == scene,
{
    lemma_mul_fixed_unit(scene.red as int);
    lemma_mul_fixed_unit(scene.green as int);
    lemma_mul_fixed_unit(scene.blue as int);
    lemma_mul_fixed_unit(scene.alpha as int);
}

/// No light at all leaves the scene black.
pub proof fn lemma_composite_dark(scene: LinearRgba)
    ensures
        composite(scene, Some(LinearRgba::none_spec())) == LinearRgba::none_spec(),
{
    lemma_mul_fixed_unit(scene.red as int);
    lemma_mul_fixed_unit(scene.green as int);
    lemma_mul_fixed_unit(scene.blue as int);
    lemma_mul_fixed_unit(scene.alpha as int);
}

/// The color of a pixel once the light map is laid over the scene.
pub fn fragment(scene: LinearRgba, light: Option<LinearRgba>) -> (color: LinearRgba)
    ensures
        color == composite(scene, light),
        light == Some(LinearRgba::white_spec()) ==> color == scene,
        light.is_none() ==> color == scene,
{
    proof {
        lemma_composite_identity(scene);
    }
    match light {
        Some(light) => scene.modulate(light),
        None => scene,
    }
}

} // verus!
