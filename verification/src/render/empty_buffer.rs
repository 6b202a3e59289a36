//! A general purpose "empty" buffer: a stand-in for the times when there is
//! no usable binding, such as an array without records.

use vstd::prelude::*;
use crate::render::render_resource::{
    ArrayBuffer,
    BindingResource,
    BufferDescriptor,
    BufferUsages,
    DeviceLimits,
};

verus! {

pub const EMPTY_BUFFER: &'static str = "empty-buffer";

/// The placeholder buffer, once it has been asked for.
#[derive(Clone, Copy, Debug, PartialEq, Eq)]
pub struct EmptyBuffer {
    pub buffer: Option<BufferDescriptor>,
}

impl EmptyBuffer {
    /// The placeholder for a device: as large as a whole uniform binding
    /// where arrays are uniform buffers, and otherwise just large enough to
    /// hold one record.
    pub open spec fn descriptor(limits: DeviceLimits) -> BufferDescriptor {
        BufferDescriptor {
            label: EMPTY_BUFFER,
            size: match limits.array_buffer_spec() {
                ArrayBuffer::Uniform => 4096,
                ArrayBuffer::Storage => 64,
            },
            usage: BufferUsages { copy_dst: true, storage: true, uniform: true },
            mapped_at_creation: false,
        }
    }

    /// The placeholder as a binding, if there is one yet.
    pub fn binding(&self) -> (binding: Option<BindingResource>)
        ensures
            binding == if self.buffer.is_some() {
                Some(BindingResource::EmptyBuffer)
            } else {
                None
            },
    {
        match self.buffer {
            Some(_) => Some(BindingResource::EmptyBuffer),
            None => None,
        }
    }

    /// Asks for the placeholder unless there is one already: it is created
    /// once and then reused.
    pub fn fill_buffer(&mut self, limits: DeviceLimits)
        ensures
            final(self).buffer == match old(self).buffer {
                Some(buffer) => Some(buffer),
                None => Some(Self::descriptor(limits)),
            },
    {
        let size: u64 = match limits.array_buffer() {
            ArrayBuffer::Uniform => 4096,
            ArrayBuffer::Storage => 64,
        };
        if self.buffer.is_none() {
            self.buffer = Some(
                BufferDescriptor {
                    label: EMPTY_BUFFER,
                    size,
                    usage: BufferUsages { copy_dst: true, storage: true, uniform: true },
                    mapped_at_creation: false,
                },
            );
        }
    }
}

impl Default for EmptyBuffer {
    fn default() -> (empty_buffer: Self)
        ensures
            empty_buffer.buffer.is_none(),
    {
        EmptyBuffer { buffer: None }
    }
}

/// Makes sure that the placeholder is there before any pass runs.
pub fn prepare_empty_buffer(empty_buffer: &mut EmptyBuffer, limits: DeviceLimits)
    ensures
        final(empty_buffer).buffer == match old(empty_buffer).buffer {
            Some(buffer) => Some(buffer),
            None => Some(EmptyBuffer::descriptor(limits)),
        },
{
    empty_buffer.fill_buffer(limits);
}

} // verus!
