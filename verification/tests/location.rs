use oa42_core::error::DocumentError;
use oa42_core::utils::node_location::Location;

fn location(text: &str) -> Location {
    Location::parse(text).unwrap()
}

fn pointer(segments: &[&str]) -> Vec<String> {
    segments.iter().map(|segment| segment.to_string()).collect()
}

#[test]
fn the_root_of_a_location_is_the_root_of_all_below_it() {
    let base = location("http://a.b.c/d/e.yaml#/f");
    let below = base.push_pointer(pointer(&["g", "h"]));
    assert!(below.set_root() == base.set_root());
    assert!(base.set_root().set_root() == base.set_root());
    assert_eq!(base.set_root().to_string(), "http://a.b.c/d/e.yaml#");
    assert!(base.set_root().is_root());
    assert!(!base.is_root());
    assert!(!below.is_root());
}

#[test]
fn a_pointer_is_appended_without_its_empty_segments() {
    let base = location("/d/e.yaml#/f");
    assert_eq!(base.push_pointer(pointer(&["g", "", "h"])).to_string(), "/d/e.yaml#/f/g/h");
    assert_eq!(base.push_pointer(pointer(&[])).to_string(), "/d/e.yaml#/f");
    let root = location("/d/e.yaml");
    assert!(root.push_pointer(pointer(&[])) == root);
    assert!(root.push_pointer(pointer(&[""])) == root);
    assert_eq!(root.push_pointer(pointer(&["a/b", "c~d"])).to_string(), "/d/e.yaml#/a~1b/c~0d");
    assert_eq!(
        root.push_pointer(pointer(&["a/b", "c~d"])).get_hash(),
        vec!["".to_string(), "a/b".to_string(), "c~d".to_string()]
    );
}

#[test]
fn an_anchor_gives_way_to_a_pointer() {
    let anchored = location("/d/e.yaml#here");
    assert_eq!(anchored.get_hash(), vec!["here".to_string()]);
    assert_eq!(anchored.push_pointer(pointer(&["a"])).to_string(), "/d/e.yaml#/a");
}

#[test]
fn an_absolute_and_a_relative_reference_to_one_place_lead_to_one_location() {
    let base = location("http://a.b.c/d/e.yaml#/f");
    let absolute = location("http://a.b.c/x/y.yaml#/z");
    let rooted = location("/x/y.yaml#/z");
    let relative = location("../x/y.yaml#/z");
    assert!(base.join(&absolute) == absolute);
    assert!(base.join(&rooted) == absolute);
    assert!(base.join(&relative) == absolute);
    assert!(base.join(&base.join(&relative)) == base.join(&relative));
}

#[test]
fn a_reference_replaces_what_it_names_and_keeps_the_rest() {
    let base = location("http://a.b.c/d/e/f?g#/h");
    assert_eq!(base.join(&location("#/x")).to_string(), "http://a.b.c/d/e/f?g#/x");
    assert_eq!(base.join(&location("#anchor")).to_string(), "http://a.b.c/d/e/f?g#anchor");
    assert_eq!(base.join(&location("?x=y")).to_string(), "http://a.b.c/d/e/f?x=y#");
    assert_eq!(base.join(&location("x/y")).to_string(), "http://a.b.c/d/e/x/y#");
    assert_eq!(base.join(&location("/x/y")).to_string(), "http://a.b.c/x/y#");
    assert_eq!(base.join(&location("x/./y/../z")).to_string(), "http://a.b.c/d/e/x/z#");
}

#[test]
fn a_relative_path_needs_a_base_with_a_path() {
    let bare = location("#/a");
    assert!(bare.get_path().is_empty());
    assert!(bare.try_join(&location("x/y.yaml")).is_none());
    let fragment = bare.try_join(&location("#/b")).unwrap();
    assert_eq!(fragment.to_string(), "#/b");
    let rooted = bare.try_join(&location("/x/y.yaml")).unwrap();
    assert_eq!(rooted.to_string(), "/x/y.yaml#");
    let based = location("/d/e.yaml");
    assert_eq!(
        based.try_join(&location("x/y.yaml")).unwrap().to_string(),
        "/d/x/y.yaml#"
    );
}

#[test]
fn a_location_is_read_back_from_its_string_form() {
    let texts = [
        "http://a.b.c/d/e.yaml#/f/g",
        "/d/e.yaml#",
        "/d/e%20f.yaml?x=y#/a~1b/c~0d",
        "e.yaml#anchor",
        "#/a",
    ];
    for text in texts {
        let first = location(text);
        let second = location(&first.to_string());
        assert!(first == second);
        assert_eq!(first.to_string(), second.to_string());
    }
}

#[test]
fn the_address_to_fetch_leaves_out_the_hash() {
    assert_eq!(
        location("http://a.b.c/d/e.yaml?x=y#/f/g").to_fetch_string(),
        "http://a.b.c/d/e.yaml?x=y"
    );
    assert_eq!(location("/d/e f.yaml#/g").to_fetch_string(), "/d/e%20f.yaml");
    assert_eq!(
        location("/d/e.yaml#/f").to_fetch_string(),
        location("/d/e.yaml#/f").set_root().to_fetch_string()
    );
}

#[test]
fn locations_are_equal_where_all_their_parts_are() {
    assert!(location("/d/e.yaml#/f") == location("/d/e.yaml#/f"));
    assert!(location("/d/e.yaml#/f") != location("/d/e.yaml#/g"));
    assert!(location("/d/e.yaml#/f") != location("/d/x.yaml#/f"));
    assert!(location("/d/e.yaml?a#/f") != location("/d/e.yaml?b#/f"));
    assert!(location("http://a/d#/f") != location("http://b/d#/f"));
    assert!(location("/d/e.yaml#/f").clone() == location("/d/e.yaml#/f"));
    assert_eq!(
        location("/d/e.yaml#/f").get_path(),
        vec!["".to_string(), "d".to_string(), "e.yaml".to_string()]
    );
}

#[test]
fn a_string_that_cannot_be_decoded_is_no_location() {
    assert_eq!(Location::parse("/a/%FF").err(), Some(DocumentError::InvalidReference));
    assert_eq!(Location::parse("/a#/%FF").err(), Some(DocumentError::InvalidReference));
}
