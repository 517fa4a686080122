//! The record kept for one identity, and its duplicate-free neighbour lists.

use crate::index::ImageVectorIndex;
use vstd::prelude::*;

verus! {

/// What a record says: an identity, its parents and its children.
pub struct VertexModel {
    pub value: ImageVectorIndex,
    pub parents: Seq<ImageVectorIndex>,
    pub children: Seq<ImageVectorIndex>,
}

/// One record per distinct identity: its own identity and the identities of
/// its parents and of its children, each in order of first insertion.
#[derive(Debug, Clone)]
pub struct Vertex {
    pub parents: Vec<ImageVectorIndex>,
    pub value: ImageVectorIndex,
    pub children: Vec<ImageVectorIndex>,
}

impl View for Vertex {
    type V = VertexModel;

    open spec fn view(&self) -> VertexModel {
        VertexModel { value: self.value, parents: self.parents@, children: self.children@ }
    }
}

/// The list `s` once `x` has been recorded in it: `x` goes to the end unless
/// it is there already.
pub open spec fn with_member(s: Seq<ImageVectorIndex>, x: ImageVectorIndex) -> Seq<
    ImageVectorIndex,
> {
    if s.contains(x) {
        s
    } else {
        s.push(x)
    }
}

/// The list `s` once an optional `x` has been recorded in it.
pub open spec fn with_optional_member(s: Seq<ImageVectorIndex>, x: Option<ImageVectorIndex>) -> Seq<
    ImageVectorIndex,
> {
    match x {
        Some(x) => with_member(s, x),
        None => s,
    }
}

/// Whether `x` occurs in `list`, by a scan from the front.
pub fn list_contains(list: &Vec<ImageVectorIndex>, x: ImageVectorIndex) -> (found: bool)
    ensures
        found == list@.contains(x),
{
    let mut j: usize = 0;
    while j < list.len()
        invariant
            j <= list.len(),
            forall|m: int| 0 <= m < j ==> list@[m] != x,
        decreases list.len() - j,
    {
        if list[j] == x {
            return true;
        }
        j += 1;
    }
    false
}

/// A copy of `list`.
pub fn copy_list(list: &Vec<ImageVectorIndex>) -> (copy: Vec<ImageVectorIndex>)
    ensures
        copy@ == list@,
{
    let mut copy: Vec<ImageVectorIndex> = Vec::new();
    let mut j: usize = 0;
    while j < list.len()
        invariant
            j <= list.len(),
            copy@ == list@.take(j as int),
        decreases list.len() - j,
    {
        copy.push(list[j]);
        assert(list@.take(j + 1) =~= list@.take(j as int).push(list@[j as int]));
        j += 1;
    }
    assert(list@.take(j as int) =~= list@);
    copy
}

/// Appends `x` to `list` unless it occurs there already.
pub fn push_unique(list: &mut Vec<ImageVectorIndex>, x: ImageVectorIndex)
    ensures
        final(list)@ == with_member(old(list)@, x),
{
    if !list_contains(list, x) {
        list.push(x);
    }
}

/// Recording a member keeps a duplicate-free list duplicate-free.
pub proof fn lemma_with_member_no_duplicates(s: Seq<ImageVectorIndex>, x: ImageVectorIndex)
    requires
        s.no_duplicates(),
    ensures
        with_member(s, x).no_duplicates(),
        with_member(s, x).contains(x),
        forall|y: ImageVectorIndex| #[trigger]
            with_member(s, x).contains(y) <==> s.contains(y) || y == x,
        with_member(with_member(s, x), x) == with_member(s, x),
{
    let t = with_member(s, x);
    if !s.contains(x) {
        assert(t[s.len() as int] == x);
        assert forall|y: ImageVectorIndex| #[trigger] t.contains(y) implies s.contains(y) || y
            == x by {
            let m = choose|m: int| 0 <= m < t.len() && t[m] == y;
            if m < s.len() {
                assert(s[m] == y);
            }
        }
        assert forall|y: ImageVectorIndex| s.contains(y) implies #[trigger] t.contains(y) by {
            let m = choose|m: int| 0 <= m < s.len() && s[m] == y;
            assert(t[m] == y);
        }
    }
}

impl Vertex {
    /// A record for `value` with no children, and with `parent` as its only
    /// parent where one is given.
    pub fn new(parent: Option<ImageVectorIndex>, value: ImageVectorIndex) -> (v: Vertex)
        ensures
            v@ == (VertexModel {
                value,
                parents: with_optional_member(Seq::empty(), parent),
                children: Seq::empty(),
            }),
    {
        let mut parents: Vec<ImageVectorIndex> = Vec::new();
        if let Some(p) = parent {
            parents.push(p);
        }
        let v = Vertex { parents, value, children: Vec::new() };
        assert(v@.parents =~= with_optional_member(Seq::empty(), parent));
        v
    }
}

} // verus!
