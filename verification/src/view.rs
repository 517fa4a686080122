//! The bound view: a finished topology paired with content indexed by
//! identity, and the handles that navigate it.
//!
//! A handle holds a borrow of the view and one identity, and resolves the
//! identity on each access. Navigating from an identity that the topology does
//! not hold, or translating one that the content does not cover, is a defect
//! of the caller: the preconditions below rule it out.

use crate::graph::{Graph, GraphError};
use crate::index::{ImageVectorIndex, InternalVectorIndex};
use crate::vertex::Vertex;
use vstd::prelude::*;

verus! {

/// A topology together with the content of its identities: the content at
/// position `i` belongs to identity `i`.
#[derive(Debug)]
pub struct GraphView<T> {
    graph: Graph,
    backing_vec: Vec<T>,
}

/// A handle on the content of one identity.
#[derive(Debug, Clone)]
pub struct ItemView<'a, T> {
    pub graph_view: &'a GraphView<T>,
    pub vertex_value: ImageVectorIndex,
}

/// A handle on one identity's place in the topology.
pub struct VertexView<'a, T> {
    pub graph_view: &'a GraphView<T>,
    pub value: ItemView<'a, T>,
}

impl<'a, T> ItemView<'a, T> {
    /// The view that the handle borrows.
    pub open spec fn owner(&self) -> GraphView<T> {
        *self.graph_view
    }

    fn new(graph_view: &'a GraphView<T>, value: ImageVectorIndex) -> (item: ItemView<'a, T>)
        ensures
            item.owner() == *graph_view,
            item.vertex_value == value,
    {
        ItemView { graph_view, vertex_value: value }
    }

    /// The content bound to the handle's identity.
    pub fn translate(&self) -> (content: &'a T)
        requires
            self.vertex_value.i < self.owner().content().len(),
        ensures
            *content == self.owner().content()[self.vertex_value.i as int],
    {
        &self.graph_view.backing_vec[self.vertex_value.i]
    }
}

impl<'a, T> VertexView<'a, T> {
    /// The view that the handle borrows.
    pub open spec fn owner(&self) -> GraphView<T> {
        *self.graph_view
    }

    /// Whether `handles` are handles on `owner`, one for each of `identities`
    /// and in their order.
    pub open spec fn handles_on(
        handles: Seq<VertexView<'a, T>>,
        owner: GraphView<T>,
        identities: Seq<ImageVectorIndex>,
    ) -> bool {
        &&& handles.len() == identities.len()
        &&& forall|j: int|
            0 <= j < handles.len() ==> {
                &&& (#[trigger] handles[j]).owner() == owner
                &&& handles[j].value.owner() == owner
                &&& handles[j].value.vertex_value == identities[j]
            }
    }

    fn new(graph_view: &'a GraphView<T>, value: ImageVectorIndex) -> (handle: VertexView<'a, T>)
        ensures
            handle.owner() == *graph_view,
            handle.value.owner() == *graph_view,
            handle.value.vertex_value == value,
    {
        VertexView { graph_view, value: ItemView::new(graph_view, value) }
    }

    /// One handle for each identity of `list`, in its order.
    fn handles(&self, list: &Vec<ImageVectorIndex>) -> (r: Vec<VertexView<'a, T>>)
        ensures
            Self::handles_on(r@, self.owner(), list@),
    {
        let mut out: Vec<VertexView<'a, T>> = Vec::new();
        let mut j: usize = 0;
        while j < list.len()
            invariant
                j <= list.len(),
                Self::handles_on(out@, self.owner(), list@.take(j as int)),
            decreases list.len() - j,
        {
            out.push(VertexView::new(self.graph_view, list[j]));
            j += 1;
        }
        assert(list@.take(j as int) =~= list@);
        out
    }

    /// Handles on the parents of the handle's identity, in the order in which
    /// they were first recorded.
    pub fn parents(&self) -> (r: Vec<VertexView<'a, T>>)
        requires
            self.owner().wf(),
            self.owner().graph().contains(self.value.vertex_value),
        ensures
            Self::handles_on(
                r@,
                self.owner(),
                self.owner().graph().parents_of(self.value.vertex_value),
            ),
            forall|j: int|
                0 <= j < r@.len() ==> self.owner().graph().contains(
                    (#[trigger] r@[j]).value.vertex_value,
                ),
    {
        let item: &Vertex = self.graph_view.graph.get(self.value.vertex_value).unwrap();
        let r = self.handles(&item.parents);
        proof {
            let listed = self.owner().graph().parents_of(self.value.vertex_value);
            assert forall|j: int| 0 <= j < r@.len() implies listed.contains(
                (#[trigger] r@[j]).value.vertex_value,
            ) by {
                assert(listed[j] == r@[j].value.vertex_value);
            }
        }
        r
    }

    /// Handles on the children of the handle's identity, in the order in which
    /// they were first recorded.
    pub fn children(&self) -> (r: Vec<VertexView<'a, T>>)
        requires
            self.owner().wf(),
            self.owner().graph().contains(self.value.vertex_value),
        ensures
            Self::handles_on(
                r@,
                self.owner(),
                self.owner().graph().children_of(self.value.vertex_value),
            ),
            forall|j: int|
                0 <= j < r@.len() ==> self.owner().graph().contains(
                    (#[trigger] r@[j]).value.vertex_value,
                ),
    {
        let item: &Vertex = self.graph_view.graph.get(self.value.vertex_value).unwrap();
        let r = self.handles(&item.children);
        proof {
            let listed = self.owner().graph().children_of(self.value.vertex_value);
            assert forall|j: int| 0 <= j < r@.len() implies listed.contains(
                (#[trigger] r@[j]).value.vertex_value,
            ) by {
                assert(listed[j] == r@[j].value.vertex_value);
            }
        }
        r
    }
}

impl<T> GraphView<T> {
    /// The topology of the view.
    pub closed spec fn graph(&self) -> Graph {
        self.graph
    }

    /// The content of the view, by identity.
    pub closed spec fn content(&self) -> Seq<T> {
        self.backing_vec@
    }

    /// The invariant of a view: that of its topology.
    pub open spec fn wf(&self) -> bool {
        self.graph().wf()
    }

    /// Binds `graph` to a copy of `content`. The content is not held against
    /// the identities of the topology.
    pub fn new(graph: Graph, content: &Vec<T>) -> (view: GraphView<T>) where T: Clone
        requires
            graph.wf(),
        ensures
            view.wf(),
            view.graph() == graph,
            view.content().len() == content@.len(),
            forall|j: int|
                0 <= j < content@.len() ==> cloned(content@[j], #[trigger] view.content()[j]),
    {
        let mut kv: Vec<T> = Vec::new();
        let mut j: usize = 0;
        while j < content.len()
            invariant
                j <= content.len(),
                kv@.len() == j,
                forall|m: int| 0 <= m < j ==> cloned(content@[m], #[trigger] kv@[m]),
            decreases content.len() - j,
        {
            kv.push(content[j].clone());
            j += 1;
        }
        GraphView { graph, backing_vec: kv }
    }

    fn get_internal(&self, value: ImageVectorIndex) -> (r: Result<VertexView<'_, T>, GraphError>)
        ensures
            r is Ok,
            r.unwrap().owner() == *self,
            r.unwrap().value.owner() == *self,
            r.unwrap().value.vertex_value == value,
    {
        Ok(VertexView::new(self, value))
    }

    /// A handle on identity `value`. It is made for any identity; whether the
    /// topology holds the identity is asked only when the handle navigates.
    pub fn get(&self, value: usize) -> (r: Result<VertexView<'_, T>, GraphError>)
        ensures
            r is Ok,
            r.unwrap().owner() == *self,
            r.unwrap().value.owner() == *self,
            r.unwrap().value.vertex_value == (ImageVectorIndex { i: value }),
    {
        self.get_internal(ImageVectorIndex { i: value })
    }

    /// A handle on the identity `key`, as `get` makes it.
    pub fn get_by_internal_key(&self, key: ImageVectorIndex) -> (r: Result<
        VertexView<'_, T>,
        GraphError,
    >)
        ensures
            r is Ok,
            r.unwrap().owner() == *self,
            r.unwrap().value.owner() == *self,
            r.unwrap().value.vertex_value == key,
    {
        self.get(key.i)
    }

    /// The adjacency of the topology: for every record in slot order its slot,
    /// its identity and its children.
    pub fn adjacency(&self) -> (rows: Vec<(InternalVectorIndex, ImageVectorIndex, Vec<ImageVectorIndex>)>)
        requires
            self.wf(),
        ensures
            rows@.len() == self.graph().identities().len(),
            forall|s: int|
                0 <= s < rows@.len() ==> {
                    &&& (#[trigger] rows@[s]).0.i == s
                    &&& rows@[s].1 == self.graph().identities()[s]
                    &&& rows@[s].2@ == self.graph().children_of(self.graph().identities()[s])
                },
    {
        self.graph.adjacency()
    }

    /// Every content entry with its identity, in the order of the content.
    pub fn iter(&self) -> (r: Vec<(ImageVectorIndex, &T)>)
        ensures
            r@.len() == self.content().len(),
            forall|j: int|
                0 <= j < r@.len() ==> (#[trigger] r@[j]).0.i == j && *r@[j].1 == self.content()[j],
    {
        let mut out: Vec<(ImageVectorIndex, &T)> = Vec::new();
        let mut j: usize = 0;
        while j < self.backing_vec.len()
            invariant
                j <= self.backing_vec.len(),
                out@.len() == j,
                forall|m: int|
                    0 <= m < j ==> (#[trigger] out@[m]).0.i == m && *out@[m].1
                        == self.backing_vec@[m],
            decreases self.backing_vec.len() - j,
        {
            out.push((ImageVectorIndex { i: j }, &self.backing_vec[j]));
            j += 1;
        }
        out
    }
}

} // verus!
