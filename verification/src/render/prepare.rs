//! The array of point lights as it is uploaded: replaced as a whole every
//! frame, in one of two layouts.

use vstd::prelude::*;
use crate::math::{LinearRgba, Vec2};
use crate::render::extract::ExtractedPointLight2d;
use crate::render::render_resource::{ArrayBuffer, BindingResource, DeviceLimits};

verus! {

/// How many point lights the uniform layout holds. Lights beyond that are
/// dropped.
pub const MAX_UNIFORM_POINT_LIGHTS: usize = 256;

/// The point lights in a uniform buffer: a fixed number of slots, of which
/// the first `len` hold this frame's lights and the others hold the default
/// light.
#[derive(Debug, PartialEq, Eq)]
pub struct GpuPointLightsUniform {
    data: Vec<ExtractedPointLight2d>,
    len: usize,
}

/// The point lights in a storage buffer: as many as there are.
#[derive(Debug, PartialEq, Eq)]
pub struct GpuPointLightsStorage {
    pub data: Vec<ExtractedPointLight2d>,
}

/// The point lights as the light map pass binds them.
#[derive(Debug, PartialEq, Eq)]
pub enum GpuPointLights {
    Uniform(GpuPointLightsUniform),
    Storage(GpuPointLightsStorage),
}

/// The light that fills the unused slots.
pub open spec fn unused_slot() -> ExtractedPointLight2d {
    ExtractedPointLight2d {
        transform: Vec2 { x: 0, y: 0 },
        radius: 0,
        color: LinearRgba::none_spec(),
        intensity: 0,
        falloff: 0,
        cast_shadows: 0,
    }
}

/// The lights that a buffer holds after it was set to `point_lights`: all of
/// them, or as many as fit where the buffer has a fixed capacity.
pub open spec fn uploaded(kind: ArrayBuffer, point_lights: Seq<ExtractedPointLight2d>) -> Seq<
    ExtractedPointLight2d,
> {
    match kind {
        ArrayBuffer::Uniform => if point_lights.len() > MAX_UNIFORM_POINT_LIGHTS {
            point_lights.take(MAX_UNIFORM_POINT_LIGHTS as int)
        } else {
            point_lights
        },
        ArrayBuffer::Storage => point_lights,
    }
}

/// Every slot of a buffer that was set to `point_lights`: the uploaded lights
/// and, where the buffer has a fixed capacity, the default light in every
/// slot after them.
pub open spec fn uploaded_slots(kind: ArrayBuffer, point_lights: Seq<ExtractedPointLight2d>) -> Seq<
    ExtractedPointLight2d,
> {
    match kind {
        ArrayBuffer::Uniform => Seq::new(
            MAX_UNIFORM_POINT_LIGHTS as nat,
            |i: int|
                if i < point_lights.len() {
                    point_lights[i]
                } else {
                    unused_slot()
                },
        ),
        ArrayBuffer::Storage => point_lights,
    }
}

impl GpuPointLightsUniform {
    #[verifier::type_invariant]
    spec fn well_formed(&self) -> bool {
        &&& self.data@.len() == MAX_UNIFORM_POINT_LIGHTS
        &&& self.len <= MAX_UNIFORM_POINT_LIGHTS
        &&& forall|i: int| self.len <= i < MAX_UNIFORM_POINT_LIGHTS ==> self.data@[i] == unused_slot()
    }

    /// Every slot of the buffer, used or not.
    pub closed spec fn slots(&self) -> Seq<ExtractedPointLight2d> {
        self.data@
    }

    /// The lights that the buffer holds.
    pub closed spec fn view(&self) -> Seq<ExtractedPointLight2d> {
        self.data@.take(self.len as int)
    }

}

impl Default for GpuPointLightsUniform {
    /// A buffer without lights.
    fn default() -> (buffer: Self)
        ensures
            buffer@ == Seq::<ExtractedPointLight2d>::empty(),
            buffer.slots() == uploaded_slots(ArrayBuffer::Uniform, Seq::empty()),
    {
        let mut data: Vec<ExtractedPointLight2d> = Vec::new();
        let mut i: usize = 0;
        while i < MAX_UNIFORM_POINT_LIGHTS
            invariant
                i <= MAX_UNIFORM_POINT_LIGHTS,
                data@.len() == i,
                forall|j: int| 0 <= j < i ==> data@[j] == unused_slot(),
            decreases MAX_UNIFORM_POINT_LIGHTS - i,
        {
            data.push(ExtractedPointLight2d::default());
            i += 1;
        }
        assert(data@ =~= uploaded_slots(ArrayBuffer::Uniform, Seq::empty()));
        GpuPointLightsUniform { data, len: 0 }
    }
}

impl Default for GpuPointLightsStorage {
    /// A buffer without lights.
    fn default() -> (buffer: Self)
        ensures
            buffer.data@ == Seq::<ExtractedPointLight2d>::empty(),
    {
        GpuPointLightsStorage { data: Vec::new() }
    }
}

impl GpuPointLights {
    /// The layout of the buffer.
    pub open spec fn kind(&self) -> ArrayBuffer {
        match self {
            GpuPointLights::Uniform(_) => ArrayBuffer::Uniform,
            GpuPointLights::Storage(_) => ArrayBuffer::Storage,
        }
    }

    /// The lights that the buffer holds, in order.
    pub open spec fn view(&self) -> Seq<ExtractedPointLight2d> {
        match self {
            GpuPointLights::Uniform(buffer) => buffer@,
            GpuPointLights::Storage(buffer) => buffer.data@,
        }
    }

    /// Every slot of the buffer, used or not.
    pub open spec fn slots(&self) -> Seq<ExtractedPointLight2d> {
        match self {
            GpuPointLights::Uniform(buffer) => buffer.slots(),
            GpuPointLights::Storage(buffer) => buffer.data@,
        }
    }

    /// An empty buffer in the layout that the device supports.
    pub fn new(limits: DeviceLimits) -> (buffer: Self)
        ensures
            buffer.kind() == limits.array_buffer_spec(),
            buffer@ == Seq::<ExtractedPointLight2d>::empty(),
            buffer.slots() == uploaded_slots(limits.array_buffer_spec(), Seq::empty()),
    {
        match limits.array_buffer() {
            ArrayBuffer::Uniform => GpuPointLights::Uniform(GpuPointLightsUniform::default()),
            ArrayBuffer::Storage => GpuPointLights::Storage(GpuPointLightsStorage::default()),
        }
    }

    /// Replaces the buffer's contents by `point_lights`. Nothing of what the
    /// buffer held before is left; lights beyond the capacity of the uniform
    /// layout are dropped.
    pub fn set(&mut self, point_lights: Vec<ExtractedPointLight2d>)
        ensures
            final(self).kind() == old(self).kind(),
            final(self)@ == uploaded(old(self).kind(), point_lights@),
            final(self).slots() == uploaded_slots(old(self).kind(), point_lights@),
    {
        match self {
            GpuPointLights::Uniform(buffer) => {
                let len = if point_lights.len() < MAX_UNIFORM_POINT_LIGHTS {
                    point_lights.len()
                } else {
                    MAX_UNIFORM_POINT_LIGHTS
                };
                let mut data: Vec<ExtractedPointLight2d> = Vec::new();
                let mut i: usize = 0;
                while i < MAX_UNIFORM_POINT_LIGHTS
                    invariant
                        i <= MAX_UNIFORM_POINT_LIGHTS,
                        len <= MAX_UNIFORM_POINT_LIGHTS,
                        len <= point_lights@.len(),
                        data@.len() == i,
                        forall|j: int| 0 <= j < i && j < len ==> data@[j] == point_lights@[j],
                        forall|j: int| len <= j < i ==> data@[j] == unused_slot(),
                    decreases MAX_UNIFORM_POINT_LIGHTS - i,
                {
                    if i < len {
                        data.push(point_lights[i]);
                    } else {
                        data.push(ExtractedPointLight2d::default());
                    }
                    i += 1;
                }
                assert(data@.take(len as int) =~= uploaded(ArrayBuffer::Uniform, point_lights@));
                assert(data@ =~= uploaded_slots(ArrayBuffer::Uniform, point_lights@));
                *buffer = GpuPointLightsUniform { data, len };
            },
            GpuPointLights::Storage(buffer) => {
                buffer.data = point_lights;
            },
        }
    }

    /// How many lights the buffer holds.
    pub fn len(&self) -> (len: usize)
        ensures
            len == self@.len(),
    {
        match self {
            GpuPointLights::Uniform(buffer) => {
                proof {
                    use_type_invariant(buffer);
                }
                buffer.len
            },
            GpuPointLights::Storage(buffer) => buffer.data.len(),
        }
    }

    /// The light in slot `i`.
    pub fn get(&self, i: usize) -> (light: Option<ExtractedPointLight2d>)
        ensures
            light == if i < self@.len() {
                Some(self@[i as int])
            } else {
                None
            },
    {
        match self {
            GpuPointLights::Uniform(buffer) => {
                proof {
                    use_type_invariant(buffer);
                }
                if i < buffer.len {
                    Some(buffer.data[i])
                } else {
                    None
                }
            },
            GpuPointLights::Storage(buffer) => {
                if i < buffer.data.len() {
                    Some(buffer.data[i])
                } else {
                    None
                }
            },
        }
    }

    /// The buffer as a binding: there is none while the buffer holds no
    /// light, as an array without records cannot be bound.
    pub fn binding(&self) -> (binding: Option<BindingResource>)
        ensures
            binding == if self@.len() > 0 {
                Some(BindingResource::PointLights)
            } else {
                None
            },
    {
        if self.len() > 0 {
            Some(BindingResource::PointLights)
        } else {
            None
        }
    }
}

/// Uploads this frame's point lights: the buffer is replaced as a whole, so
/// that nothing of the frame before is left in it.
pub fn prepare_point_lights(
    point_lights: &Vec<ExtractedPointLight2d>,
    gpu_point_lights: &mut GpuPointLights,
)
    ensures
        final(gpu_point_lights).kind() == old(gpu_point_lights).kind(),
        final(gpu_point_lights)@ == uploaded(old(gpu_point_lights).kind(), point_lights@),
        final(gpu_point_lights).slots() == uploaded_slots(
            old(gpu_point_lights).kind(),
            point_lights@,
        ),
{
    let mut copy: Vec<ExtractedPointLight2d> = Vec::new();
    let mut i: usize = 0;
    while i < point_lights.len()
        invariant
            i <= point_lights.len(),
            copy@ == point_lights@.take(i as int),
        decreases point_lights.len() - i,
    {
        copy.push(point_lights[i]);
        proof {
            point_lights@.lemma_take_succ_push(i as int);
        }
        i += 1;
    }
    proof {
        point_lights@.lemma_take_len();
    }
    gpu_point_lights.set(copy);
}

} // verus!
