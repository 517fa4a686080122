use identity_graph::vertex::{copy_list, list_contains, push_unique};
use identity_graph::{Graph, GraphError, GraphView, ImageVectorIndex, InternalVectorIndex, Vertex};
use keyed_vec::IndexLike;

fn id(i: usize) -> ImageVectorIndex {
    ImageVectorIndex { i }
}

fn ids(list: &[usize]) -> Vec<ImageVectorIndex> {
    list.iter().map(|&i| id(i)).collect()
}

#[test]
fn test_graph() {
    let items = vec!("Ro", "Am", "Li", "Je", "Na", "Ar", "Cl", "La", "Ju", "Ol");
    let i_je = items.iter().position(|&e| e == "Je").unwrap();
    let i_cl = items.iter().position(|&e| e == "Cl").unwrap();
    let i_na = items.iter().position(|&e| e == "Na").unwrap();
    let i_ar = items.iter().position(|&e| e == "Ar").unwrap();
    let i_la = items.iter().position(|&e| e == "La").unwrap();
    let i_ju = items.iter().position(|&e| e == "Ju").unwrap();
    let i_ol = items.iter().position(|&e| e == "Ol").unwrap();
    let i_ro = items.iter().position(|&e| e == "Ro").unwrap();
    let i_am = items.iter().position(|&e| e == "Am").unwrap();
    let i_li = items.iter().position(|&e| e == "Li").unwrap();

    let mut graph = Graph::new();
    graph.add(None, i_je).unwrap();
    graph.add(None, i_cl).unwrap();
    graph.add(Some(i_je), i_na).unwrap();
    graph.add(Some(i_je), i_ar).unwrap();
    graph.add(Some(i_je), i_la).unwrap();
    graph.add(Some(i_na), i_ju).unwrap();
    graph.add(Some(i_na), i_ol).unwrap();
    graph.add(Some(i_na), i_ro).unwrap();
    graph.add(Some(i_ar), i_am).unwrap();
    graph.add(Some(i_ar), i_li).unwrap();
    graph.add(Some(i_cl), i_na).unwrap();
    graph.add(Some(i_cl), i_ar).unwrap();
    graph.add(Some(i_cl), i_la).unwrap();

    let view = GraphView::new(graph, &items);

    let v_i_je = view.get(i_je).unwrap();
    let v_i_je_parents = v_i_je.parents().into_iter().map(|c| *c.value.translate()).collect::<Vec<_>>();
    assert!(v_i_je_parents.len() == 0);
    let v_i_je_children = v_i_je.children().into_iter().map(|c| *c.value.translate()).collect::<Vec<_>>();
    assert!(v_i_je_children.len() == 3);
    assert!(vec!("Ar", "Na", "La").iter().all(|e| v_i_je_children.contains(e)));

    let v_i_ar = view.get(i_ar).unwrap();

    let v_i_ar_parents = v_i_ar.parents().into_iter().map(|c| *c.value.translate()).collect::<Vec<_>>();
    assert!(v_i_ar_parents.len() == 2);
    assert!(vec!("Je", "Cl").iter().all(|e| v_i_ar_parents.contains(e)));

    let v_i_ar_children = v_i_ar.children().into_iter().map(|c| *c.value.translate()).collect::<Vec<_>>();
    assert!(v_i_ar_children.len() == 2);
    assert!(vec!("Am", "Li").iter().all(|e| v_i_ar_children.contains(e)));
}

#[test]
fn new_graph_holds_nothing() {
    let graph = Graph::new();
    assert_eq!(graph.get(id(0)).err(), Some(GraphError::NotFound));
    assert_eq!(graph.adjacency().len(), 0);
}

#[test]
fn add_without_parent_makes_an_empty_record() {
    let mut graph = Graph::new();
    assert_eq!(graph.add(None, 7), Ok(()));
    let v = graph.get(id(7)).unwrap();
    assert_eq!(v.value, id(7));
    assert_eq!(v.parents, ids(&[]));
    assert_eq!(v.children, ids(&[]));
}

#[test]
fn add_records_the_edge_on_both_sides() {
    let mut graph = Graph::new();
    assert_eq!(graph.add(Some(1), 2), Ok(()));
    assert_eq!(graph.get(id(1)).unwrap().children, ids(&[2]));
    assert_eq!(graph.get(id(1)).unwrap().parents, ids(&[]));
    assert_eq!(graph.get(id(2)).unwrap().parents, ids(&[1]));
    assert_eq!(graph.get(id(2)).unwrap().children, ids(&[]));
}

#[test]
fn repeated_edge_is_recorded_once() {
    let mut graph = Graph::new();
    for _ in 0..5 {
        graph.add(Some(1), 2).unwrap();
    }
    assert_eq!(graph.get(id(1)).unwrap().children, ids(&[2]));
    assert_eq!(graph.get(id(2)).unwrap().parents, ids(&[1]));
    assert_eq!(graph.adjacency().len(), 2);
}

#[test]
fn edges_are_symmetric() {
    let mut graph = Graph::new();
    let edges = [(1usize, 2usize), (1, 3), (4, 2), (2, 5), (4, 5), (1, 2)];
    for (p, c) in edges {
        graph.add(Some(p), c).unwrap();
    }
    for a in 1..=5usize {
        for b in 1..=5usize {
            let down = graph.get(id(a)).unwrap().children.contains(&id(b));
            let up = graph.get(id(b)).unwrap().parents.contains(&id(a));
            assert_eq!(down, up);
            assert_eq!(down, edges.contains(&(a, b)));
        }
    }
}

#[test]
fn two_parents_in_first_insertion_order() {
    let mut graph = Graph::new();
    graph.add(Some(9), 4).unwrap();
    graph.add(Some(3), 4).unwrap();
    assert_eq!(graph.get(id(4)).unwrap().parents, ids(&[9, 3]));
}

#[test]
fn children_in_first_insertion_order() {
    let mut graph = Graph::new();
    graph.add(Some(0), 8).unwrap();
    graph.add(Some(0), 2).unwrap();
    graph.add(Some(0), 5).unwrap();
    graph.add(Some(0), 2).unwrap();
    assert_eq!(graph.get(id(0)).unwrap().children, ids(&[8, 2, 5]));
}

#[test]
fn readding_under_a_new_parent_keeps_one_record() {
    let mut graph = Graph::new();
    graph.add(None, 4).unwrap();
    graph.add(Some(1), 4).unwrap();
    graph.add(Some(2), 4).unwrap();
    let rows = graph.adjacency();
    let seen: Vec<usize> = rows.iter().map(|r| r.1.i).collect();
    assert_eq!(seen, vec![4, 1, 2]);
    assert_eq!(rows[0].0.i, 0);
    assert_eq!(graph.get(id(4)).unwrap().value, id(4));
    assert_eq!(graph.get(id(4)).unwrap().parents, ids(&[1, 2]));
}

#[test]
fn slots_follow_first_seen_order() {
    let mut graph = Graph::new();
    graph.add(Some(10), 20).unwrap();
    graph.add(Some(20), 30).unwrap();
    graph.add(None, 10).unwrap();
    let rows = graph.adjacency();
    assert_eq!(rows.len(), 3);
    assert_eq!((rows[0].0.i, rows[0].1, rows[0].2.clone()), (0, id(20), ids(&[30])));
    assert_eq!((rows[1].0.i, rows[1].1, rows[1].2.clone()), (1, id(10), ids(&[20])));
    assert_eq!((rows[2].0.i, rows[2].1, rows[2].2.clone()), (2, id(30), ids(&[])));
}

#[test]
fn parent_named_only_as_sibling_gets_a_record() {
    let mut graph = Graph::new();
    graph.add(Some(6), 1).unwrap();
    let v = graph.get(id(6)).unwrap();
    assert_eq!(v.value, id(6));
    assert_eq!(v.parents, ids(&[]));
    assert_eq!(v.children, ids(&[1]));
}

#[test]
fn get_of_unseen_identity_is_not_found() {
    let mut graph = Graph::new();
    graph.add(Some(1), 2).unwrap();
    assert_eq!(graph.get(id(3)).err(), Some(GraphError::NotFound));
    assert_eq!(graph.get(id(0)).err(), Some(GraphError::NotFound));
    assert!(graph.get(id(1)).is_ok());
}

#[test]
fn self_edge_is_recorded_once_on_both_sides() {
    let mut graph = Graph::new();
    graph.add(Some(3), 3).unwrap();
    graph.add(Some(3), 3).unwrap();
    let v = graph.get(id(3)).unwrap();
    assert_eq!(v.parents, ids(&[3]));
    assert_eq!(v.children, ids(&[3]));
    assert_eq!(graph.adjacency().len(), 1);
}

#[test]
fn vertex_new_with_and_without_parent() {
    let v = Vertex::new(Some(id(2)), id(5));
    assert_eq!(v.value, id(5));
    assert_eq!(v.parents, ids(&[2]));
    assert_eq!(v.children, ids(&[]));
    let w = Vertex::new(None, id(5));
    assert_eq!(w.parents, ids(&[]));
}

#[test]
fn list_helpers() {
    let mut list = ids(&[4, 1]);
    assert!(list_contains(&list, id(1)));
    assert!(!list_contains(&list, id(2)));
    push_unique(&mut list, id(1));
    assert_eq!(list, ids(&[4, 1]));
    push_unique(&mut list, id(2));
    assert_eq!(list, ids(&[4, 1, 2]));
    assert_eq!(copy_list(&list), ids(&[4, 1, 2]));
}

#[test]
fn keys_convert_to_and_from_positions() {
    assert_eq!(ImageVectorIndex::from_index(7), id(7));
    assert_eq!(id(7).to_index(), 7);
    assert_eq!(InternalVectorIndex::from_index(3).to_index(), 3);
}

#[test]
fn iter_yields_each_entry_in_order_and_restarts() {
    let mut graph = Graph::new();
    graph.add(Some(2), 0).unwrap();
    let content = vec!["a".to_string(), "b".to_string(), "c".to_string()];
    let view = GraphView::new(graph, &content);
    let first: Vec<(usize, String)> = view.iter().into_iter().map(|(k, v)| (k.i, v.clone())).collect();
    assert_eq!(first, vec![(0, "a".to_string()), (1, "b".to_string()), (2, "c".to_string())]);
    let second: Vec<(usize, String)> = view.iter().into_iter().map(|(k, v)| (k.i, v.clone())).collect();
    assert_eq!(first, second);
}

#[test]
fn iter_of_empty_content_is_empty() {
    let view = GraphView::new(Graph::new(), &Vec::<u8>::new());
    assert_eq!(view.iter().len(), 0);
}

#[test]
fn view_get_makes_a_handle_for_any_identity() {
    let view = GraphView::new(Graph::new(), &vec![1u8]);
    let handle = view.get(42).unwrap();
    assert_eq!(handle.value.vertex_value, id(42));
    let by_key = view.get_by_internal_key(id(0)).unwrap();
    assert_eq!(by_key.value.vertex_value, id(0));
    assert_eq!(*by_key.value.translate(), 1u8);
}

#[test]
fn handles_navigate_in_stored_order() {
    let mut graph = Graph::new();
    graph.add(Some(0), 3).unwrap();
    graph.add(Some(0), 1).unwrap();
    graph.add(Some(2), 1).unwrap();
    let content = vec![10u32, 11, 12, 13];
    let view = GraphView::new(graph, &content);
    let root = view.get(0).unwrap();
    let children: Vec<u32> = root.children().iter().map(|c| *c.value.translate()).collect();
    assert_eq!(children, vec![13, 11]);
    let one = view.get(1).unwrap();
    let parents: Vec<usize> = one.parents().iter().map(|c| c.value.vertex_value.i).collect();
    assert_eq!(parents, vec![0, 2]);
    let grandparents = one.parents()[0].parents();
    assert_eq!(grandparents.len(), 0);
    assert_eq!(*root.value.translate(), 10);
}

#[test]
fn view_adjacency_lists_every_record() {
    let mut graph = Graph::new();
    graph.add(Some(1), 0).unwrap();
    graph.add(Some(1), 2).unwrap();
    let view = GraphView::new(graph, &vec!['x', 'y', 'z']);
    let rows = view.adjacency();
    let flat: Vec<(usize, usize, Vec<usize>)> =
        rows.iter().map(|r| (r.0.i, r.1.i, r.2.iter().map(|c| c.i).collect())).collect();
    assert_eq!(flat, vec![(0, 0, vec![]), (1, 1, vec![0, 2]), (2, 2, vec![])]);
}
