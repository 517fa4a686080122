//! The topology: one record per identity, found through a map from identity
//! to storage slot.

use crate::index::{ImageVectorIndex, InternalVectorIndex};
use crate::store::{
    store_enumerate, store_get, store_get_mut, store_items, store_new, store_push, VertexStore,
};
use crate::vertex::{
    copy_list, lemma_with_member_no_duplicates, push_unique, with_member, with_optional_member, Vertex,
    VertexModel,
};
use std::collections::HashMap;
use vstd::prelude::*;

verus! {

broadcast use vstd::std_specs::hash::group_hash_axioms;

/// Why a lookup or an insertion failed.
#[derive(Copy, Clone, Debug, PartialEq, Eq, Structural)]
pub enum GraphError {
    /// The identity has no record.
    NotFound,
    /// The identity map and the record store disagree.
    InternalInconsistency,
}

/// A directed graph over caller-chosen identities in which a child may have
/// several parents.
#[derive(Debug)]
pub struct Graph {
    base_vector: VertexStore,
    value_to_index: HashMap<usize, InternalVectorIndex>,
}

/// How a topology `post` relates to the topology `pre` that it came from by
/// one insertion of `child`, under `parent` where one is given.
pub open spec fn after_add(
    pre: &Graph,
    post: &Graph,
    parent: Option<ImageVectorIndex>,
    child: ImageVectorIndex,
) -> bool {
    &&& forall|id: ImageVectorIndex| #[trigger]
        post.contains(id) <==> pre.contains(id) || id == child || parent == Some(id)
    &&& post.identities() == with_optional_member(with_member(pre.identities(), child), parent)
    &&& forall|id: ImageVectorIndex|
        pre.contains(id) ==> (#[trigger] post.slots()[id.i]) == pre.slots()[id.i]
    &&& forall|id: ImageVectorIndex| #[trigger]
        post.parents_of(id) == if id == child {
            with_optional_member(pre.parents_of(id), parent)
        } else {
            pre.parents_of(id)
        }
    &&& forall|id: ImageVectorIndex| #[trigger]
        post.children_of(id) == if parent == Some(id) {
            with_member(pre.children_of(id), child)
        } else {
            pre.children_of(id)
        }
}

/// An insertion keeps the neighbour lists duplicate-free, closed over the
/// registered identities, and symmetric.
pub proof fn lemma_add_keeps_lists_sound(
    pre: &Graph,
    post: &Graph,
    parent: Option<ImageVectorIndex>,
    child: ImageVectorIndex,
)
    requires
        pre.duplicate_free(),
        pre.closed_over_neighbours(),
        pre.symmetric(),
        after_add(pre, post, parent, child),
    ensures
        post.duplicate_free(),
        post.closed_over_neighbours(),
        post.symmetric(),
{
    assert forall|a: ImageVectorIndex|
        #![trigger post.parents_of(a)]
        #![trigger post.children_of(a)]
        post.parents_of(a).no_duplicates() && post.children_of(a).no_duplicates() by {
        assert(pre.parents_of(a).no_duplicates());
        assert(pre.children_of(a).no_duplicates());
        if let Some(p) = parent {
            lemma_with_member_no_duplicates(pre.parents_of(a), p);
        }
        lemma_with_member_no_duplicates(pre.children_of(a), child);
    }
    assert forall|a: ImageVectorIndex, b: ImageVectorIndex|
        #![trigger post.parents_of(a).contains(b)]
        #![trigger post.children_of(a).contains(b)]
        {
            &&& post.parents_of(a).contains(b) <==> pre.parents_of(a).contains(b) || (a == child
                && parent == Some(b))
            &&& post.children_of(a).contains(b) <==> pre.children_of(a).contains(b) || (b == child
                && parent == Some(a))
        } by {
        assert(pre.parents_of(a).no_duplicates());
        assert(pre.children_of(a).no_duplicates());
        if let Some(p) = parent {
            lemma_with_member_no_duplicates(pre.parents_of(a), p);
        }
        lemma_with_member_no_duplicates(pre.children_of(a), child);
    }
    assert forall|a: ImageVectorIndex, b: ImageVectorIndex| #[trigger]
        post.parents_of(a).contains(b) implies post.contains(b) by {
        if pre.parents_of(a).contains(b) {
            assert(pre.contains(b));
        }
    }
    assert forall|a: ImageVectorIndex, b: ImageVectorIndex| #[trigger]
        post.children_of(a).contains(b) implies post.contains(b) by {
        if pre.children_of(a).contains(b) {
            assert(pre.contains(b));
        }
    }
    assert forall|a: ImageVectorIndex, b: ImageVectorIndex|
        #![trigger post.children_of(a).contains(b)]
        #![trigger post.parents_of(b).contains(a)]
        post.children_of(a).contains(b) <==> post.parents_of(b).contains(a) by {
        assert(pre.children_of(a).contains(b) <==> pre.parents_of(b).contains(a));
        let _ = post.children_of(a).contains(b);
        let _ = post.parents_of(b).contains(a);
    }
}

impl Graph {
    /// The records in slot order.
    pub closed spec fn nodes(&self) -> Seq<VertexModel> {
        store_items(self.base_vector).map_values(|v: Vertex| v@)
    }

    /// The slot that each registered identity was given.
    pub closed spec fn slots(&self) -> Map<usize, InternalVectorIndex> {
        self.value_to_index@
    }

    /// Whether the identity has a record.
    pub open spec fn contains(&self, id: ImageVectorIndex) -> bool {
        self.slots().contains_key(id.i)
    }

    /// The record of a registered identity.
    pub open spec fn node(&self, id: ImageVectorIndex) -> VertexModel {
        self.nodes()[self.slots()[id.i].i as int]
    }

    /// The parents recorded for `id`, in order of first insertion; none for an
    /// identity without a record.
    pub open spec fn parents_of(&self, id: ImageVectorIndex) -> Seq<ImageVectorIndex> {
        if self.contains(id) {
            self.node(id).parents
        } else {
            Seq::empty()
        }
    }

    /// The children recorded for `id`, in order of first insertion; none for
    /// an identity without a record.
    pub open spec fn children_of(&self, id: ImageVectorIndex) -> Seq<ImageVectorIndex> {
        if self.contains(id) {
            self.node(id).children
        } else {
            Seq::empty()
        }
    }

    /// The registered identities in slot order, which is first-seen order.
    pub open spec fn identities(&self) -> Seq<ImageVectorIndex> {
        self.nodes().map_values(|n: VertexModel| n.value)
    }

    /// The identity map and the record store correspond one to one.
    pub open spec fn indexed(&self) -> bool {
        &&& forall|id: usize| #[trigger]
            self.slots().contains_key(id) ==> self.slots()[id].i < self.nodes().len()
                && self.nodes()[self.slots()[id].i as int].value.i == id
        &&& forall|s: int|
            0 <= s < self.nodes().len() ==> self.slots().contains_key(
                (#[trigger] self.nodes()[s]).value.i,
            ) && self.slots()[self.nodes()[s].value.i].i == s
    }

    /// No neighbour list names an identity twice.
    pub open spec fn duplicate_free(&self) -> bool {
        forall|a: ImageVectorIndex|
            #![trigger self.parents_of(a)]
            #![trigger self.children_of(a)]
            self.parents_of(a).no_duplicates() && self.children_of(a).no_duplicates()
    }

    /// Every identity that a neighbour list names has a record of its own.
    pub open spec fn closed_over_neighbours(&self) -> bool {
        &&& forall|a: ImageVectorIndex, b: ImageVectorIndex| #[trigger]
            self.parents_of(a).contains(b) ==> self.contains(b)
        &&& forall|a: ImageVectorIndex, b: ImageVectorIndex| #[trigger]
            self.children_of(a).contains(b) ==> self.contains(b)
    }

    /// `b` is a child of `a` exactly when `a` is a parent of `b`.
    pub open spec fn symmetric(&self) -> bool {
        forall|a: ImageVectorIndex, b: ImageVectorIndex|
            #![trigger self.children_of(a).contains(b)]
            #![trigger self.parents_of(b).contains(a)]
            self.children_of(a).contains(b) <==> self.parents_of(b).contains(a)
    }

    /// The invariant of a topology.
    pub open spec fn wf(&self) -> bool {
        &&& self.indexed()
        &&& self.duplicate_free()
        &&& self.closed_over_neighbours()
        &&& self.symmetric()
    }

    /// An empty topology.
    pub fn new() -> (g: Graph)
        ensures
            g.wf(),
            g.identities() == Seq::<ImageVectorIndex>::empty(),
            forall|id: ImageVectorIndex| !g.contains(id),
    {
        let g = Graph { base_vector: store_new(), value_to_index: HashMap::new() };
        assert(g.nodes() =~= Seq::empty());
        assert(g.identities() =~= Seq::empty());
        g
    }

    /// The identities in slot order are exactly those with a record, each once.
    pub proof fn lemma_identities(&self)
        requires
            self.indexed(),
        ensures
            self.identities().no_duplicates(),
            forall|id: ImageVectorIndex| #[trigger]
                self.identities().contains(id) <==> self.contains(id),
    {
        let ids = self.identities();
        assert forall|a: int, b: int| 0 <= a < ids.len() && 0 <= b < ids.len() && a != b implies ids[a]
            != ids[b] by {
            assert(self.nodes()[a].value == ids[a]);
            assert(self.nodes()[b].value == ids[b]);
        }
        assert forall|id: ImageVectorIndex| #[trigger] ids.contains(id) <==> self.contains(id) by {
            if ids.contains(id) {
                let m = choose|m: int| 0 <= m < ids.len() && ids[m] == id;
                assert(self.nodes()[m].value == id);
            }
            if self.contains(id) {
                assert(self.slots().contains_key(id.i));
                assert(ids[self.slots()[id.i].i as int] == id);
            }
        }
    }

    /// Replacing the record of `id` by one that keeps its identity keeps the
    /// map and the store in correspondence, and every other record as it was.
    proof fn lemma_record_replaced(pre: &Graph, post: &Graph, id: ImageVectorIndex, node: VertexModel)
        requires
            pre.indexed(),
            pre.contains(id),
            node.value == id,
            post.slots() == pre.slots(),
            post.nodes() == pre.nodes().update(pre.slots()[id.i].i as int, node),
        ensures
            post.indexed(),
            post.identities() == pre.identities(),
            post.node(id) == node,
            forall|other: ImageVectorIndex|
                pre.contains(other) && other != id ==> #[trigger] post.node(other) == pre.node(
                    other,
                ),
    {
        assert(pre.slots().contains_key(id.i));
        assert forall|s: int| 0 <= s < post.nodes().len() implies (#[trigger] post.nodes()[s]).value
            == pre.nodes()[s].value by {}
        assert forall|k: usize| #[trigger] post.slots().contains_key(k) implies post.slots()[k].i
            < post.nodes().len() && post.nodes()[post.slots()[k].i as int].value.i == k by {
            assert(pre.slots().contains_key(k));
            let s = pre.slots()[k].i as int;
            assert(post.nodes()[s].value == pre.nodes()[s].value);
        }
        assert(post.identities() =~= pre.identities());
        assert forall|other: ImageVectorIndex| pre.contains(other) && other != id implies #[trigger]
            post.node(other) == pre.node(other) by {
            assert(pre.slots().contains_key(other.i));
        }
    }

    /// The slot of `value`, where it has a record.
    fn slot_of(&self, value: ImageVectorIndex) -> (r: Option<InternalVectorIndex>)
        ensures
            r == if self.contains(value) {
                Some(self.slots()[value.i])
            } else {
                None
            },
    {
        match self.value_to_index.get(&value.i) {
            Some(slot) => Some(*slot),
            None => None,
        }
    }

    /// Makes sure that `value` has a record, and records `parent` among its
    /// parents where one is given. Returns the slot of the record.
    fn add_node(&mut self, parent: Option<ImageVectorIndex>, value: ImageVectorIndex) -> (k:
        InternalVectorIndex)
        requires
            old(self).indexed(),
        ensures
            final(self).indexed(),
            final(self).contains(value),
            final(self).slots()[value.i] == k,
            final(self).identities() == with_member(old(self).identities(), value),
            forall|id: ImageVectorIndex| #[trigger]
                final(self).contains(id) <==> old(self).contains(id) || id == value,
            forall|id: ImageVectorIndex|
                old(self).contains(id) ==> (#[trigger] final(self).slots()[id.i]) == old(
                    self,
                ).slots()[id.i],
            forall|id: ImageVectorIndex| #[trigger]
                final(self).parents_of(id) == if id == value {
                    with_optional_member(old(self).parents_of(id), parent)
                } else {
                    old(self).parents_of(id)
                },
            forall|id: ImageVectorIndex| #[trigger]
                final(self).children_of(id) == old(self).children_of(id),
    {
        match self.slot_of(value) {
            Some(i) => {
                proof {
                    assert(self.slots().contains_key(value.i));
                }
                if let Some(parent_value) = parent {
                    let vertex = store_get_mut(&mut self.base_vector, i).unwrap();
                    push_unique(&mut vertex.parents, parent_value);
                }
                proof {
                    let node = VertexModel {
                        parents: with_optional_member(old(self).node(value).parents, parent),
                        ..old(self).node(value)
                    };
                    assert(self.nodes() =~= old(self).nodes().update(i.i as int, node));
                    Self::lemma_record_replaced(old(self), self, value, node);
                    old(self).lemma_identities();
                }
                i
            },
            None => {
                let new_node = Vertex::new(parent, value);
                let new_node_index = store_push(&mut self.base_vector, new_node);
                self.value_to_index.insert(value.i, new_node_index);
                proof {
                    assert(self.nodes() =~= old(self).nodes().push(new_node@));
                    old(self).lemma_identities();
                    assert(self.identities() =~= old(self).identities().push(value));
                    assert forall|id: ImageVectorIndex| old(self).contains(id) implies self.node(id)
                        == old(self).node(id) by {
                        assert(old(self).slots().contains_key(id.i));
                    }
                }
                new_node_index
            },
        }
    }

    /// Records `value` among the children of `parent`, which has a record.
    fn add_child(&mut self, slot: InternalVectorIndex, parent: ImageVectorIndex, value: ImageVectorIndex)
        requires
            old(self).indexed(),
            old(self).contains(parent),
            old(self).slots()[parent.i] == slot,
        ensures
            final(self).indexed(),
            final(self).slots() == old(self).slots(),
            final(self).identities() == old(self).identities(),
            forall|id: ImageVectorIndex| #[trigger]
                final(self).parents_of(id) == old(self).parents_of(id),
            forall|id: ImageVectorIndex| #[trigger]
                final(self).children_of(id) == if id == parent {
                    with_member(old(self).children_of(id), value)
                } else {
                    old(self).children_of(id)
                },
    {
        proof {
            assert(self.slots().contains_key(parent.i));
        }
        let vertex = store_get_mut(&mut self.base_vector, slot).unwrap();
        push_unique(&mut vertex.children, value);
        proof {
            let node = VertexModel {
                children: with_member(old(self).node(parent).children, value),
                ..old(self).node(parent)
            };
            assert(self.nodes() =~= old(self).nodes().update(slot.i as int, node));
            Self::lemma_record_replaced(old(self), self, parent, node);
        }
    }

    /// Registers `value`, then its parent where one is given, then the edge
    /// between them.
    fn add_internal(&mut self, parent_value: Option<ImageVectorIndex>, value: ImageVectorIndex) -> (r:
        Result<(), GraphError>)
        requires
            old(self).wf(),
        ensures
            r is Ok,
            final(self).wf(),
            after_add(old(self), final(self), parent_value, value),
    {
        self.add_node(parent_value, value);
        let ghost first = *self;
        if let Some(parent) = parent_value {
            self.add_node(None, parent);
        }
        let ghost second = *self;
        if let Some(parent) = parent_value {
            match self.slot_of(parent) {
                None => {
                    return Err(GraphError::InternalInconsistency);
                },
                Some(slot) => {
                    self.add_child(slot, parent, value);
                },
            }
        }
        proof {
            assert forall|id: ImageVectorIndex| #[trigger]
                self.contains(id) <==> old(self).contains(id) || id == value || parent_value
                    == Some(id) by {
                assert(self.contains(id) == second.contains(id));
                assert(second.contains(id) <==> first.contains(id) || parent_value == Some(id));
                assert(first.contains(id) <==> old(self).contains(id) || id == value);
            }
            assert forall|id: ImageVectorIndex| old(self).contains(id) implies (
            #[trigger] self.slots()[id.i]) == old(self).slots()[id.i] by {
                assert(first.contains(id));
                assert(first.slots()[id.i] == old(self).slots()[id.i]);
                assert(second.slots()[id.i] == first.slots()[id.i]);
            }
            assert forall|id: ImageVectorIndex| #[trigger]
                self.parents_of(id) == if id == value {
                    with_optional_member(old(self).parents_of(id), parent_value)
                } else {
                    old(self).parents_of(id)
                } by {
                assert(self.parents_of(id) == second.parents_of(id));
                assert(second.parents_of(id) == first.parents_of(id));
                assert(first.parents_of(id) == if id == value {
                    with_optional_member(old(self).parents_of(id), parent_value)
                } else {
                    old(self).parents_of(id)
                });
            }
            assert forall|id: ImageVectorIndex| #[trigger]
                self.children_of(id) == if parent_value == Some(id) {
                    with_member(old(self).children_of(id), value)
                } else {
                    old(self).children_of(id)
                } by {
                assert(first.children_of(id) == old(self).children_of(id));
                assert(second.children_of(id) == first.children_of(id));
                assert(self.children_of(id) == if parent_value == Some(id) {
                    with_member(second.children_of(id), value)
                } else {
                    second.children_of(id)
                });
            }
            assert(self.identities() == second.identities());
            assert(second.identities() == with_optional_member(first.identities(), parent_value));
            assert(first.identities() == with_member(old(self).identities(), value));
            lemma_add_keeps_lists_sound(old(self), self, parent_value, value);
        }
        Ok(())
    }

    /// Registers `value`, and the edge from `parent_value` to it where a parent
    /// is given. Both identities get a record if they had none; the edge is
    /// recorded once however often it is added.
    pub fn add(&mut self, parent_value: Option<usize>, value: usize) -> (r: Result<(), GraphError>)
        requires
            old(self).wf(),
        ensures
            r is Ok,
            final(self).wf(),
            after_add(
                old(self),
                final(self),
                match parent_value {
                    Some(i) => Some(ImageVectorIndex { i }),
                    None => None,
                },
                ImageVectorIndex { i: value },
            ),
    {
        let parent = match parent_value {
            Some(i) => Some(ImageVectorIndex { i }),
            None => None,
        };
        self.add_internal(parent, ImageVectorIndex { i: value })
    }

    /// The adjacency of the topology: for every record in slot order its slot,
    /// its identity and its children.
    pub fn adjacency(&self) -> (rows: Vec<(InternalVectorIndex, ImageVectorIndex, Vec<ImageVectorIndex>)>)
        requires
            self.wf(),
        ensures
            rows@.len() == self.identities().len(),
            forall|s: int|
                0 <= s < rows@.len() ==> {
                    &&& (#[trigger] rows@[s]).0.i == s
                    &&& rows@[s].1 == self.identities()[s]
                    &&& rows@[s].2@ == self.children_of(self.identities()[s])
                },
    {
        let records = store_enumerate(&self.base_vector);
        let mut rows: Vec<(InternalVectorIndex, ImageVectorIndex, Vec<ImageVectorIndex>)> = Vec::new();
        let mut j: usize = 0;
        while j < records.len()
            invariant
                self.wf(),
                j <= records.len(),
                records@.len() == store_items(self.base_vector).len(),
                forall|m: int|
                    0 <= m < records@.len() ==> (#[trigger] records@[m]).0.i == m && *records@[m].1
                        == store_items(self.base_vector)[m],
                rows@.len() == j,
                forall|s: int|
                    0 <= s < j ==> {
                        &&& (#[trigger] rows@[s]).0.i == s
                        &&& rows@[s].1 == self.identities()[s]
                        &&& rows@[s].2@ == self.children_of(self.identities()[s])
                    },
            decreases records.len() - j,
        {
            let slot = records[j].0;
            let record = records[j].1;
            proof {
                let node = self.nodes()[j as int];
                assert(node == record@);
                assert(self.slots().contains_key(node.value.i));
                assert(self.node(node.value) == node);
            }
            rows.push((slot, record.value, copy_list(&record.children)));
            j += 1;
        }
        rows
    }

    /// The record of `value`, or `NotFound` where it has none.
    pub fn get(&self, value: ImageVectorIndex) -> (r: Result<&Vertex, GraphError>)
        requires
            self.wf(),
        ensures
            self.contains(value) ==> r is Ok && r.unwrap()@ == self.node(value),
            !self.contains(value) ==> r == Err::<&Vertex, GraphError>(GraphError::NotFound),
    {
        match self.slot_of(value) {
            None => Err(GraphError::NotFound),
            Some(index) => match store_get(&self.base_vector, index) {
                Some(v) => Ok(v),
                None => Err(GraphError::NotFound),
            },
        }
    }
}

} // verus!
