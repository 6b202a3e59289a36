use vstd::prelude::*;
use crate::render::lighting::LightingPipelineKey;

verus! {

/// A view as compositing sees it.
#[derive(Clone, Copy, Debug, PartialEq, Eq, Structural)]
pub struct ExtractedView {
    /// Whether the view renders in the extended-range format.
    pub hdr: bool,
    /// Whether an ambient light was extracted for the view.
    pub ambient_light: bool,
}

impl LightingPipelineKey {
    /// The key of a view's compositing pipeline. A view without an ambient
    /// light is not composited and has no key.
    pub open spec fn of(view: ExtractedView) -> Option<LightingPipelineKey> {
        if view.ambient_light {
            Some(LightingPipelineKey { hdr: view.hdr })
        } else {
            None
        }
    }
}

/// Picks, for every view that is lit, the variant of the compositing
/// pipeline that matches the view's output format.
pub fn prepare_lighting_pipelines(view_targets: &Vec<ExtractedView>) -> (keys: Vec<
    Option<LightingPipelineKey>,
>)
    ensures
        keys@ == view_targets@.map_values(|view: ExtractedView| LightingPipelineKey::of(view)),
{
    let ghost key = |view: ExtractedView| LightingPipelineKey::of(view);
    let mut keys: Vec<Option<LightingPipelineKey>> = Vec::new();
    let mut i: usize = 0;
    while i < view_targets.len()
        invariant
            i <= view_targets.len(),
            key == |view: ExtractedView| LightingPipelineKey::of(view),
            keys@ == view_targets@.take(i as int).map_values(key),
        decreases view_targets.len() - i,
    {
        proof {
            view_targets@.lemma_map_take_succ(key, i as int);
        }
        let view = view_targets[i];
        if view.ambient_light {
            keys.push(Some(LightingPipelineKey { hdr: view.hdr }));
        } else {
            keys.push(None);
        }
        i += 1;
    }
    proof {
        view_targets@.lemma_take_len();
    }
    keys
}

} // verus!
