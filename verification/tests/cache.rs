use oa42_core::error::DocumentError;
use oa42_core::utils::node::{Member, Node};
use oa42_core::utils::node_cache::NodeCache;
use oa42_core::utils::node_location::Location;

fn location(text: &str) -> Location {
    Location::parse(text).unwrap()
}

fn text(value: &str) -> Node {
    Node::String(value.to_string())
}

fn object(members: Vec<(&str, Node)>) -> Node {
    Node::Object(
        members
            .into_iter()
            .map(|(name, value)| Member { name: name.to_string(), value })
            .collect(),
    )
}

#[test]
fn the_same_node_is_taken_twice_and_another_one_is_refused() {
    let mut cache = NodeCache::new();
    let place = location("/a.yaml#/x");
    assert!(!cache.contains(&place));
    assert!(cache.get_node(&place).is_none());
    assert_eq!(cache.insert_or_verify(place.clone(), text("one")), Ok(()));
    assert!(cache.contains(&place));
    assert_eq!(cache.insert_or_verify(place.clone(), text("one")), Ok(()));
    assert!(cache.get_node(&place).unwrap().equals(&text("one")));
    assert_eq!(
        cache.insert_or_verify(place.clone(), text("two")),
        Err(DocumentError::ContentMismatch)
    );
    assert!(cache.get_node(&place).unwrap().equals(&text("one")));
    assert!(!cache.contains(&location("/a.yaml#/y")));
}

#[test]
fn every_node_of_a_tree_is_stored_at_its_own_location() {
    let mut cache = NodeCache::new();
    let tree = object(vec![
        ("a", Node::Array(vec![text("x"), text("y")])),
        ("b/c", object(vec![("d", Node::Bool(true))])),
    ]);
    assert_eq!(cache.fill_node_cache(&location("/t.yaml"), &tree), Ok(()));
    assert!(cache.get_node(&location("/t.yaml")).unwrap().equals(&tree));
    assert!(cache
        .get_node(&location("/t.yaml#/a"))
        .unwrap()
        .equals(&Node::Array(vec![text("x"), text("y")])));
    assert!(cache.get_node(&location("/t.yaml#/a/1")).unwrap().equals(&text("y")));
    assert!(cache
        .get_node(&location("/t.yaml#/b~1c/d"))
        .unwrap()
        .equals(&Node::Bool(true)));
    assert!(cache.get_node(&location("/t.yaml#/a/2")).is_none());
    assert!(cache.get_node(&location("/u.yaml#/a")).is_none());
    // The same tree is taken again, a tree that differs in one node is not.
    assert_eq!(cache.fill_node_cache(&location("/t.yaml"), &tree), Ok(()));
    let other = object(vec![
        ("a", Node::Array(vec![text("x"), text("z")])),
        ("b/c", object(vec![("d", Node::Bool(true))])),
    ]);
    assert_eq!(
        cache.fill_node_cache(&location("/t.yaml"), &other),
        Err(DocumentError::ContentMismatch)
    );
    assert!(cache.get_node(&location("/t.yaml#/a/1")).unwrap().equals(&text("y")));
}

#[test]
fn a_tree_can_be_stored_below_a_pointer() {
    let mut cache = NodeCache::new();
    let tree = object(vec![("a", text("x"))]);
    assert_eq!(cache.fill_node_cache(&location("/t.yaml#/deep/down"), &tree), Ok(()));
    assert!(cache.get_node(&location("/t.yaml#/deep/down")).unwrap().equals(&tree));
    assert!(cache
        .get_node(&location("/t.yaml#/deep/down/a"))
        .unwrap()
        .equals(&text("x")));
    assert!(cache.get_node(&location("/t.yaml")).is_none());
}
