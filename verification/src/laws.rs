//! What holds of every topology and of every insertion, stated over the
//! model of `Graph` and proved from the contracts of its operations.

use crate::graph::{after_add, lemma_add_keeps_lists_sound, Graph};
use crate::index::ImageVectorIndex;
use crate::vertex::{lemma_with_member_no_duplicates, with_optional_member};
use vstd::prelude::*;

verus! {

/// How often `x` occurs in `s`.
pub open spec fn occurrences(s: Seq<ImageVectorIndex>, x: ImageVectorIndex) -> nat {
    s.to_multiset().count(x)
}

/// A member of a duplicate-free list occurs in it exactly once.
pub proof fn lemma_member_occurs_once(s: Seq<ImageVectorIndex>, x: ImageVectorIndex)
    requires
        s.no_duplicates(),
        s.contains(x),
    ensures
        occurrences(s, x) == 1,
{
    s.to_multiset_ensures();
    s.lemma_multiset_has_no_duplicates();
    assert(s.to_multiset().contains(x));
}

/// Once the edge from `parent` to `child` has been added, the children of
/// `parent` name `child` exactly once and the parents of `child` name `parent`
/// exactly once, whatever the topology held before.
pub proof fn lemma_edge_recorded_once(
    pre: &Graph,
    post: &Graph,
    parent: ImageVectorIndex,
    child: ImageVectorIndex,
)
    requires
        pre.wf(),
        after_add(pre, post, Some(parent), child),
    ensures
        occurrences(post.children_of(parent), child) == 1,
        occurrences(post.parents_of(child), parent) == 1,
{
    lemma_add_keeps_lists_sound(pre, post, Some(parent), child);
    assert(pre.children_of(parent).no_duplicates());
    assert(pre.parents_of(child).no_duplicates());
    lemma_with_member_no_duplicates(pre.children_of(parent), child);
    lemma_with_member_no_duplicates(pre.parents_of(child), parent);
    assert(post.children_of(parent).no_duplicates());
    assert(post.parents_of(child).no_duplicates());
    lemma_member_occurs_once(post.children_of(parent), child);
    lemma_member_occurs_once(post.parents_of(child), parent);
}

/// Adding the same pair a second time changes nothing: the same identities
/// in the same slots, and the same neighbour lists.
pub proof fn lemma_add_again_changes_nothing(
    pre: &Graph,
    mid: &Graph,
    post: &Graph,
    parent: Option<ImageVectorIndex>,
    child: ImageVectorIndex,
)
    requires
        pre.wf(),
        after_add(pre, mid, parent, child),
        after_add(mid, post, parent, child),
    ensures
        post.identities() == mid.identities(),
        forall|id: ImageVectorIndex| #[trigger] post.contains(id) == mid.contains(id),
        forall|id: ImageVectorIndex| #[trigger] post.parents_of(id) == mid.parents_of(id),
        forall|id: ImageVectorIndex| #[trigger] post.children_of(id) == mid.children_of(id),
{
    pre.lemma_identities();
    lemma_with_member_no_duplicates(pre.identities(), child);
    let with_child = crate::vertex::with_member(pre.identities(), child);
    if let Some(p) = parent {
        lemma_with_member_no_duplicates(with_child, p);
        assert(mid.identities().contains(child));
    }
    assert forall|id: ImageVectorIndex| #[trigger] post.parents_of(id) == mid.parents_of(id) by {
        assert(pre.parents_of(id).no_duplicates());
        if let Some(p) = parent {
            lemma_with_member_no_duplicates(pre.parents_of(id), p);
        }
    }
    assert forall|id: ImageVectorIndex| #[trigger] post.children_of(id) == mid.children_of(id) by {
        assert(pre.children_of(id).no_duplicates());
        lemma_with_member_no_duplicates(pre.children_of(id), child);
    }
}

/// In every topology, `child` is among the children of `parent` exactly when
/// `parent` is among the parents of `child`.
pub proof fn lemma_edges_symmetric(g: &Graph, parent: ImageVectorIndex, child: ImageVectorIndex)
    requires
        g.wf(),
    ensures
        g.children_of(parent).contains(child) <==> g.parents_of(child).contains(parent),
{
}

/// A child that is added under two distinct parents, and has no parent but
/// these, has exactly these two parents. Where it had none before, the
/// first-added comes first.
pub proof fn lemma_two_parents_in_order(
    pre: &Graph,
    mid: &Graph,
    post: &Graph,
    first: ImageVectorIndex,
    second: ImageVectorIndex,
    child: ImageVectorIndex,
)
    requires
        pre.wf(),
        forall|x: ImageVectorIndex| #[trigger]
            pre.parents_of(child).contains(x) ==> x == first || x == second,
        first != second,
        after_add(pre, mid, Some(first), child),
        after_add(mid, post, Some(second), child),
    ensures
        post.parents_of(child).len() == 2,
        post.parents_of(child).contains(first),
        post.parents_of(child).contains(second),
        pre.parents_of(child).len() == 0 ==> post.parents_of(child) == seq![first, second],
{
    let zero = pre.parents_of(child);
    let one = mid.parents_of(child);
    let two = post.parents_of(child);
    assert(zero.no_duplicates());
    lemma_with_member_no_duplicates(zero, first);
    lemma_with_member_no_duplicates(one, second);
    assert(two.contains(first));
    assert(two.contains(second));
    let a = choose|a: int| 0 <= a < two.len() && two[a] == first;
    let b = choose|b: int| 0 <= b < two.len() && two[b] == second;
    assert(a != b);
    if two.len() > 2 {
        assert(two.contains(two[0]) && two.contains(two[1]) && two.contains(two[2]));
        assert(two[0] != two[1] && two[0] != two[2] && two[1] != two[2]);
    }
    if zero.len() == 0 {
        assert(one =~= seq![first]);
        assert(two =~= seq![first, second]);
    }
}

/// Adding an identity that has a record, under whatever parent, gives it no
/// second record: it keeps its slot, and the identities in slot order stay
/// distinct and grow by the parent at most.
pub proof fn lemma_readd_keeps_record(
    pre: &Graph,
    post: &Graph,
    parent: Option<ImageVectorIndex>,
    child: ImageVectorIndex,
)
    requires
        pre.wf(),
        post.wf(),
        pre.contains(child),
        after_add(pre, post, parent, child),
    ensures
        post.slots()[child.i] == pre.slots()[child.i],
        post.identities() == with_optional_member(pre.identities(), parent),
        occurrences(post.identities(), child) == 1,
{
    pre.lemma_identities();
    post.lemma_identities();
    lemma_member_occurs_once(post.identities(), child);
}

/// An insertion gives a record to the identities it names and to no other.
pub proof fn lemma_unnamed_identity_stays_absent(
    pre: &Graph,
    post: &Graph,
    parent: Option<ImageVectorIndex>,
    child: ImageVectorIndex,
    other: ImageVectorIndex,
)
    requires
        after_add(pre, post, parent, child),
        !pre.contains(other),
        other != child,
        parent != Some(other),
    ensures
        !post.contains(other),
{
}

} // verus!
