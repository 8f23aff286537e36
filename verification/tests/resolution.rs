use storyflow::graph::{NodeContent, StoryGraph};
use storyflow::path::{Path, PathComponent};
use storyflow::search_result::SearchResult;
use storyflow::value::Value;

fn sample_graph() -> (StoryGraph, usize, usize, usize, usize) {
    // root
    //   "hello" (container)
    //      "world" (container)
    //      <anonymous leaf value>
    //   <anonymous leaf value>
    let mut g = StoryGraph::new();
    let hello = g.add_container(0, Some("hello".to_string()));
    let world = g.add_container(hello, Some("world".to_string()));
    let leaf = g.add_leaf(hello, None, NodeContent::Val(Value::from_int(7)));
    let root_leaf = g.add_leaf(0, None, NodeContent::Val(Value::from_text("hi")));
    (g, hello, world, leaf, root_leaf)
}

#[test]
fn resolve_by_name_exact() {
    let (g, hello, world, _, _) = sample_graph();
    let p = Path::with_components(vec![
        PathComponent::Name("hello".to_string()),
        PathComponent::Name("world".to_string()),
    ]);
    let r = g.resolve(0, &p);
    assert!(!r.approximate);
    assert_eq!(r.obj, world);
    assert_eq!(r.correct_obj(), Some(world));
    assert_eq!(r.container(&g), Some(world));

    let p2 = Path::with_components(vec![PathComponent::Name("hello".to_string())]);
    let r2 = g.resolve(0, &p2);
    assert!(!r2.approximate);
    assert_eq!(r2.obj, hello);
}

#[test]
fn resolve_by_index_exact() {
    let (g, _hello, _, leaf, root_leaf) = sample_graph();
    let p = Path::with_components(vec![PathComponent::Index(0), PathComponent::Index(1)]);
    let r = g.resolve(0, &p);
    assert!(!r.approximate);
    assert_eq!(r.obj, leaf);
    // a leaf is not a container
    assert_eq!(r.container(&g), None);
    assert_eq!(r.correct_obj(), Some(leaf));

    let p2 = Path::with_components(vec![PathComponent::Index(1)]);
    let r2 = g.resolve(0, &p2);
    assert!(!r2.approximate);
    assert_eq!(r2.obj, root_leaf);
}

#[test]
fn resolve_empty_path_is_start() {
    let (g, hello, _, _, _) = sample_graph();
    let r = g.resolve(hello, &Path::new());
    assert!(!r.approximate);
    assert_eq!(r.obj, hello);
}

#[test]
fn resolve_missing_name_is_approximate() {
    let (g, hello, _, _, _) = sample_graph();
    let p = Path::with_components(vec![
        PathComponent::Name("hello".to_string()),
        PathComponent::Name("nowhere".to_string()),
    ]);
    let r = g.resolve(0, &p);
    assert!(r.approximate);
    // deepest container reached is "hello"
    assert_eq!(r.obj, hello);
    // an approximate result never yields a correct object
    assert_eq!(r.correct_obj(), None);
}

#[test]
fn resolve_through_leaf_is_approximate() {
    let (g, hello, _, _, _) = sample_graph();
    // hello.1 is a leaf; continuing past it must fail approximately
    let p = Path::with_components(vec![
        PathComponent::Name("hello".to_string()),
        PathComponent::Index(1),
        PathComponent::Index(0),
    ]);
    let r = g.resolve(0, &p);
    assert!(r.approximate);
    assert_eq!(r.obj, hello);
    assert_eq!(r.correct_obj(), None);
}

#[test]
fn resolve_index_out_of_range_is_approximate() {
    let (g, _, world, _, _) = sample_graph();
    let p = Path::with_components(vec![
        PathComponent::Name("hello".to_string()),
        PathComponent::Name("world".to_string()),
        PathComponent::Index(3),
    ]);
    let r = g.resolve(0, &p);
    assert!(r.approximate);
    assert_eq!(r.obj, world);
}

#[test]
fn search_result_copies() {
    let sr = SearchResult::new(5, true);
    let sr2 = SearchResult::from_search_result(&sr);
    assert_eq!(sr2.obj, 5);
    assert!(sr2.approximate);
    let sr3 = SearchResult::new(2, false);
    assert_eq!(sr3.correct_obj(), Some(2));
}
