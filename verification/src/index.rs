//! The two key types: caller identities and internal storage slots.

use keyed_vec::IndexLike;
use vstd::prelude::*;

verus! {

/// A caller-chosen identity: the key into the topology and into the content.
#[derive(Copy, Debug, Clone, PartialEq, Eq, Hash, Structural)]
pub struct ImageVectorIndex {
    pub i: usize,
}

/// A dense storage position, assigned in first-seen order.
#[derive(Copy, Debug, Clone, PartialEq, Eq, Structural)]
pub struct InternalVectorIndex {
    pub i: usize,
}

impl IndexLike for ImageVectorIndex {
    /// The position that the identity names.
    fn to_index(&self) -> (r: usize)
        ensures
            r == self.i,
    {
        self.i
    }

    /// The identity that names position `i`.
    fn from_index(i: usize) -> (r: Self)
        ensures
            r == (ImageVectorIndex { i }),
    {
        ImageVectorIndex { i }
    }
}

impl IndexLike for InternalVectorIndex {
    /// The position of the slot.
    fn to_index(&self) -> (r: usize)
        ensures
            r == self.i,
    {
        self.i
    }

    /// The slot at position `i`.
    fn from_index(i: usize) -> (r: Self)
        ensures
            r == (InternalVectorIndex { i }),
    {
        InternalVectorIndex { i }
    }
}

} // verus!
