//! The dense keyed store of vertex records: an append-only sequence addressed
//! by internal slot, kept in a `keyed_vec::KeyedVec`.
//!
//! The verifier does not read `KeyedVec`. What its methods do is stated here
//! and taken on trust: each function below makes one call into it, and its
//! contract says what that call does to `store_items`.

use crate::index::InternalVectorIndex;
use crate::vertex::Vertex;
use keyed_vec::KeyedVec;
use vstd::prelude::*;

verus! {

/// The store of vertex records: a `keyed_vec::KeyedVec` keyed by internal
/// slot. It is opaque to the verifier, which knows its contents only through
/// `store_items`.
#[verifier::external_body]
#[derive(Debug)]
pub struct VertexStore {
    inner: KeyedVec<InternalVectorIndex, Vertex>,
}

/// The records a store holds, in insertion order: the record at position `i`
/// is the one that key `i` addresses.
pub uninterp spec fn store_items(s: VertexStore) -> Seq<Vertex>;

/// Calls `KeyedVec::new`. Trusted: the store it returns holds nothing.
#[verifier::external_body]
pub(crate) fn store_new() -> (s: VertexStore)
    ensures
        store_items(s) == Seq::<Vertex>::empty(),
{
    VertexStore { inner: KeyedVec::new() }
}

/// Calls `KeyedVec::push`. Trusted: it appends the record, leaves the others
/// as they were, and returns the key of the new position, which is the
/// store's length before the call.
#[verifier::external_body]
pub(crate) fn store_push(s: &mut VertexStore, value: Vertex) -> (k:
    InternalVectorIndex)
    ensures
        store_items(*final(s)) == store_items(*old(s)).push(value),
        k.i == store_items(*old(s)).len(),
{
    s.inner.push(value)
}

/// Calls `KeyedVec::get`. Trusted: it returns the record at the key's
/// position, or nothing where the position is outside the store.
#[verifier::external_body]
pub(crate) fn store_get(s: &VertexStore, k: InternalVectorIndex) -> (r:
    Option<&Vertex>)
    ensures
        k.i >= store_items(*s).len() ==> r is None,
        k.i < store_items(*s).len() ==> r is Some && *r.unwrap() == store_items(*s)[k.i as int],
{
    s.inner.get(k)
}

/// Calls `KeyedVec::get_mut`. Trusted: it returns a mutable borrow of the
/// record at the key's position, or nothing where the position is outside the
/// store. Whatever is written through the borrow ends up at that position; no
/// other record changes, and none is added or removed.
#[verifier::external_body]
pub(crate) fn store_get_mut(s: &mut VertexStore, k: InternalVectorIndex) -> (r:
    Option<&mut Vertex>)
    ensures
        k.i >= store_items(*old(s)).len() ==> r is None && store_items(*final(s)) == store_items(
            *old(s),
        ),
        k.i < store_items(*old(s)).len() ==> r is Some && *r.unwrap() == store_items(*old(s))[k.i as int]
            && store_items(*final(s)) == store_items(*old(s)).update(
            k.i as int,
            *final(r.unwrap()),
        ),
{
    s.inner.get_mut(k)
}

/// Calls `KeyedVec::enumerate` and collects what it yields. Trusted: it yields
/// every record once, in insertion order, each with the key of its position.
#[verifier::external_body]
pub(crate) fn store_enumerate(s: &VertexStore) -> (r: Vec<(InternalVectorIndex, &Vertex)>)
    ensures
        r@.len() == store_items(*s).len(),
        forall|j: int|
            0 <= j < r@.len() ==> (#[trigger] r@[j]).0.i == j && *r@[j].1 == store_items(*s)[j],
{
    s.inner.enumerate().collect()
}

} // verus!
