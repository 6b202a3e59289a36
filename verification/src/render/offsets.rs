//! The dynamic offsets handed to a bind group, kept in a small vector that
//! holds up to three of them without allocating.

use vstd::prelude::*;
use smallvec::SmallVec;

verus! {

/// The dynamic offsets of one bind group, in the order of its bindings.
#[verifier::external_body]
#[derive(Debug, PartialEq, Eq)]
pub struct DynamicOffsets {
    offsets: SmallVec<[u32; 3]>,
}

/// The offsets that the small vector holds, first to last.
pub uninterp spec fn offsets_view(offsets: DynamicOffsets) -> Seq<u32>;

/// `SmallVec::new`: a vector that holds nothing.
#[verifier::external_body]
fn offsets_new() -> (offsets: DynamicOffsets)
    ensures
        offsets_view(offsets) == Seq::<u32>::empty(),
{
    DynamicOffsets { offsets: SmallVec::new() }
}

/// `SmallVec::push`: appends one offset and leaves the others where they
/// were. Growing the vector fails only at lengths far beyond the bound
/// asked for here.
#[verifier::external_body]
fn offsets_push(offsets: &mut DynamicOffsets, offset: u32)
    requires
        offsets_view(*old(offsets)).len() < 0x1000_0000,
    ensures
        offsets_view(*final(offsets)) == offsets_view(*old(offsets)).push(offset),
{
    offsets.offsets.push(offset)
}

/// `SmallVec::len`: how many offsets the vector holds.
#[verifier::external_body]
fn offsets_len(offsets: &DynamicOffsets) -> (len: usize)
    ensures
        len == offsets_view(*offsets).len(),
{
    offsets.offsets.len()
}

/// Indexing a `SmallVec`: the offset at position `i`.
#[verifier::external_body]
fn offsets_get(offsets: &DynamicOffsets, i: usize) -> (offset: u32)
    requires
        i < offsets_view(*offsets).len(),
    ensures
        offset == offsets_view(*offsets)[i as int],
{
    offsets.offsets[i]
}

/// The dynamic offsets of a bind group whose uniform buffers are bound at
/// `leading`, in that order. Where storage buffers are not to be had, the
/// array of lights or occluders is a uniform buffer too and is bound last,
/// at offset zero: only as many records as fit in a single binding are ever
/// uploaded.
pub open spec fn dynamic_offsets(leading: Seq<u32>, array_is_uniform: bool) -> Seq<u32> {
    if array_is_uniform {
        leading.push(0)
    } else {
        leading
    }
}

impl DynamicOffsets {
    /// The offsets, first to last.
    pub open spec fn view(&self) -> Seq<u32> {
        offsets_view(*self)
    }

    /// The dynamic offsets of a bind group with one or two leading uniform
    /// buffers, followed by the array where that is a uniform buffer too.
    pub fn new(first: u32, second: Option<u32>, array_is_uniform: bool) -> (offsets: DynamicOffsets)
        ensures
            offsets@ == dynamic_offsets(
                match second {
                    Some(second) => seq![first, second],
                    None => seq![first],
                },
                array_is_uniform,
            ),
    {
        let mut offsets = offsets_new();
        offsets_push(&mut offsets, first);
        if let Some(second) = second {
            offsets_push(&mut offsets, second);
        }
        if array_is_uniform {
            offsets_push(&mut offsets, 0);
        }
        offsets
    }

    /// No offsets: for a bind group without uniform buffers.
    pub fn none() -> (offsets: DynamicOffsets)
        ensures
            offsets@ == Seq::<u32>::empty(),
    {
        offsets_new()
    }

    /// How many offsets there are.
    pub fn len(&self) -> (len: usize)
        ensures
            len == self@.len(),
    {
        offsets_len(self)
    }

    /// The offsets, first to last, in a vector of their own.
    pub fn to_vec(&self) -> (offsets: Vec<u32>)
        ensures
            offsets@ == self@,
    {
        let len = offsets_len(self);
        let mut offsets: Vec<u32> = Vec::new();
        let mut i: usize = 0;
        while i < len
            invariant
                i <= len,
                len == self@.len(),
                offsets@ == self@.take(i as int),
            decreases len - i,
        {
            offsets.push(offsets_get(self, i));
            proof {
                self@.lemma_take_succ_push(i as int);
            }
            i += 1;
        }
        proof {
            self@.lemma_take_len();
        }
        offsets
    }
}

} // verus!
