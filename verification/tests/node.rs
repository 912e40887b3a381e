use oa42_core::documents::DocumentType;
use oa42_core::error::DocumentError;
use oa42_core::utils::node::{decimal, read_node, same_text, Member, Node};
use oa42_core::utils::text::{compare_text, has_prefix};
use oa42_core::utils::yaml::parse_document;

fn text(value: &str) -> Node {
    Node::String(value.to_string())
}

fn object(members: Vec<(&str, Node)>) -> Node {
    Node::Object(
        members
            .into_iter()
            .map(|(name, value)| Member { name: name.to_string(), value })
            .collect(),
    )
}

#[test]
fn an_index_is_written_in_decimal_digits() {
    assert_eq!(decimal(0), "0");
    assert_eq!(decimal(7), "7");
    assert_eq!(decimal(10), "10");
    assert_eq!(decimal(909), "909");
    assert_eq!(decimal(1234567890), "1234567890");
    assert_eq!(decimal(usize::MAX), usize::MAX.to_string());
}

#[test]
fn the_nodes_of_a_tree_come_in_the_order_of_the_document() {
    let tree = object(vec![
        ("b", Node::Array(vec![text("x"), object(vec![("c", Node::Null)])])),
        ("a", Node::Bool(true)),
    ]);
    let prefix = vec!["p".to_string()];
    let entries = read_node(&prefix, &tree);
    let pointers: Vec<Vec<&str>> = entries
        .iter()
        .map(|entry| entry.pointer.iter().map(|segment| segment.as_str()).collect())
        .collect();
    assert_eq!(
        pointers,
        vec![
            vec!["p"],
            vec!["p", "b"],
            vec!["p", "b", "0"],
            vec!["p", "b", "1"],
            vec!["p", "b", "1", "c"],
            vec!["p", "a"],
        ]
    );
    assert!(entries[0].node.equals(&tree));
    assert!(entries[2].node.equals(&text("x")));
    assert!(entries[4].node.equals(&Node::Null));
    assert!(entries[5].node.equals(&Node::Bool(true)));
}

#[test]
fn nodes_are_equal_where_they_hold_the_same() {
    let left = object(vec![("a", Node::Array(vec![Node::Number("1".to_string()), Node::Null]))]);
    let same = object(vec![("a", Node::Array(vec![Node::Number("1".to_string()), Node::Null]))]);
    let other_name = object(vec![("b", Node::Array(vec![Node::Number("1".to_string()), Node::Null]))]);
    let other_item = object(vec![("a", Node::Array(vec![Node::Number("2".to_string()), Node::Null]))]);
    let shorter = object(vec![("a", Node::Array(vec![Node::Number("1".to_string())]))]);
    assert!(left.equals(&same));
    assert!(left == same);
    assert!(left != other_item);
    assert!(left.equals(&left.duplicate()));
    assert!(left.equals(&left.clone()));
    assert!(!left.equals(&other_name));
    assert!(!left.equals(&other_item));
    assert!(!left.equals(&shorter));
    assert!(!text("1").equals(&Node::Number("1".to_string())));
    assert!(!Node::Bool(true).equals(&Node::Bool(false)));
    assert!(Node::Null.equals(&Node::Null));
}

#[test]
fn members_are_found_by_their_names() {
    let tree = object(vec![
        ("name", text("first")),
        ("flag", Node::Bool(true)),
        ("name", text("second")),
    ]);
    assert!(tree.get("name").unwrap().equals(&text("first")));
    assert!(tree.get("none").is_none());
    assert!(text("x").get("name").is_none());
    assert_eq!(tree.get_string("name").as_deref(), Some("first"));
    assert_eq!(tree.get_string("flag"), None);
    assert_eq!(tree.get_bool("flag"), Some(true));
    assert_eq!(tree.get_bool("name"), None);
    assert_eq!(text("x").as_str(), Some("x"));
    assert_eq!(Node::Null.as_str(), None);
    assert_eq!(Node::Bool(false).as_bool(), Some(false));
    assert_eq!(Node::Null.as_bool(), None);
}

#[test]
fn children_carry_their_pointers() {
    let tree = object(vec![
        ("list", Node::Array(vec![text("x"), text("y")])),
        ("map", object(vec![("k", Node::Null)])),
    ]);
    let items = tree.items_under("list").unwrap();
    assert_eq!(items.len(), 2);
    assert_eq!(items[1].pointer, vec!["list".to_string(), "1".to_string()]);
    assert!(items[1].node.equals(&text("y")));
    let members = tree.members_under("map").unwrap();
    assert_eq!(members.len(), 1);
    assert_eq!(members[0].pointer, vec!["map".to_string(), "k".to_string()]);
    assert!(tree.items_under("map").is_none());
    assert!(tree.members_under("list").is_none());
    assert!(tree.members_under("none").is_none());
}

#[test]
fn a_text_is_read_as_yaml_or_json() {
    let yaml = parse_document("b: [1, 2.5, yes]\na:\n  c: text\n  d: null\n").unwrap();
    let expected = object(vec![
        (
            "a",
            object(vec![("c", text("text")), ("d", Node::Null)]),
        ),
        (
            "b",
            Node::Array(vec![
                Node::Number("1".to_string()),
                Node::Number("2.5".to_string()),
                text("yes"),
            ]),
        ),
    ]);
    assert!(yaml.equals(&expected));
    let json = parse_document(r#"{"b": [1, 2.5, "yes"], "a": {"c": "text", "d": null}}"#).unwrap();
    assert!(json.equals(&expected));
    assert!(parse_document("true").unwrap().equals(&Node::Bool(true)));
}

#[test]
fn a_text_that_cannot_be_read_is_refused() {
    assert_eq!(parse_document("a: [1, 2").err(), Some(DocumentError::InvalidDocument));
    assert_eq!(parse_document("{\"a\": ").err(), Some(DocumentError::InvalidDocument));
}

#[test]
fn strings_are_ordered_character_by_character() {
    assert!(compare_text("200", "default"));
    assert!(!compare_text("default", "200"));
    assert!(compare_text("200", "200"));
    assert!(compare_text("20", "200"));
    assert!(!compare_text("200", "20"));
    assert!(compare_text("", "a"));
    assert!(!compare_text("a", ""));
    assert!(compare_text("2XX", "404"));
    assert!(compare_text("Z", "a"));
    assert!(compare_text("z", "é"));
    assert!(!compare_text("é", "z"));
}

#[test]
fn prefixes_and_equal_texts_are_told() {
    assert!(has_prefix("3.0.2", "3.0"));
    assert!(!has_prefix("3.1.0", "3.0"));
    assert!(!has_prefix("3.", "3.0"));
    assert!(has_prefix("3.0", ""));
    assert!(same_text("query", "query"));
    assert!(!same_text("query", "Query"));
}

#[test]
fn a_document_tells_its_kind() {
    let kind = |text: &str| DocumentType::discriminate(&parse_document(text).unwrap());
    assert_eq!(kind("openapi: 3.0.2"), Some(DocumentType::OpenApiV30));
    assert_eq!(kind("openapi: 3.1.0"), Some(DocumentType::OpenApiV31));
    assert_eq!(kind("swagger: \"2.0\""), Some(DocumentType::SwaggerV2));
    assert_eq!(kind("openapi: 4.0.0"), None);
    assert_eq!(kind("openapi: 3"), None);
    assert_eq!(kind("info: {}"), None);
    assert_eq!(kind("[]"), None);
}
