use oa42_core::documents::DocumentType;
use oa42_core::error::DocumentError;
use oa42_core::utils::document_context::{
    DocumentConfiguration, DocumentContext, DocumentFactory, LoadAction,
};
use oa42_core::utils::node_location::Location;
use oa42_core::utils::yaml::parse_document;

fn location(text: &str) -> Location {
    Location::parse(text).unwrap()
}

fn context() -> DocumentContext {
    let mut context = DocumentContext::new();
    context
        .register_factory(DocumentType::OpenApiV30, DocumentFactory::Oas30)
        .unwrap();
    context
}

fn asked(action: LoadAction) -> String {
    match action {
        LoadAction::Fetch(address) => address,
        LoadAction::Finished => panic!("a document was expected to be asked for"),
    }
}

const ALONE: &str = r##"
openapi: 3.0.0
paths:
  /a:
    get:
      name: a
      parameters:
        - $ref: "#/shared/p"
      responses:
        "200":
          $ref: "#/shared/r"
shared:
  p:
    name: p
    in: query
  r:
    description: ok
"##;

const TOP: &str = r##"
openapi: 3.0.0
paths:
  /left:
    $ref: "left.yaml#/path"
  /right:
    $ref: "right.yaml#/path"
"##;

const LEFT: &str = r##"
openapi: 3.0.0
path:
  get:
    name: left
    parameters:
      - $ref: "shared.yaml#/p"
paths:
  /l:
    get:
      name: l
      parameters:
        - $ref: "shared.yaml#/p"
"##;

const RIGHT: &str = r##"
openapi: 3.0.0
path:
  get:
    name: right
paths:
  /r:
    get:
      name: r
      parameters:
        - $ref: "shared.yaml#/p"
"##;

const SHARED: &str = r##"
openapi: 3.0.0
p:
  name: p
  in: query
"##;

#[test]
fn a_location_below_a_root_is_not_loaded() {
    let mut context = context();
    let place = location("/a.yaml#/paths");
    let result = context.load_from_location(&place, &place, None, DocumentType::OpenApiV30);
    assert_eq!(result.err(), Some(DocumentError::NotARoot));
}

#[test]
fn a_document_that_refers_to_itself_alone_is_fetched_once() {
    let mut context = context();
    let place = location("/dir/alone.yaml");
    let action = context
        .load_from_location(&place, &place, None, DocumentType::OpenApiV30)
        .unwrap();
    assert_eq!(asked(action), "/dir/alone.yaml");
    let action = context.load_fetched(ALONE).unwrap();
    assert!(matches!(action, LoadAction::Finished));
    assert_eq!(context.document_count(), 1);
    // Nothing is waited for any more.
    assert_eq!(context.load_fetched(ALONE).err(), Some(DocumentError::NotFound));
    // A second load of the same location fetches nothing and adds nothing.
    let action = context
        .load_from_location(&place, &place, None, DocumentType::OpenApiV30)
        .unwrap();
    assert!(matches!(action, LoadAction::Finished));
    assert_eq!(context.document_count(), 1);
}

#[test]
fn a_document_that_two_documents_refer_to_is_loaded_once() {
    let mut context = context();
    let top = location("/dir/top.yaml");
    let action = context
        .load_from_location(&top, &top, None, DocumentType::OpenApiV30)
        .unwrap();
    assert_eq!(asked(action), "/dir/top.yaml");
    assert_eq!(asked(context.load_fetched(TOP).unwrap()), "/dir/left.yaml");
    assert_eq!(asked(context.load_fetched(LEFT).unwrap()), "/dir/right.yaml");
    assert_eq!(asked(context.load_fetched(RIGHT).unwrap()), "/dir/shared.yaml");
    let action = context.load_fetched(SHARED).unwrap();
    assert!(matches!(action, LoadAction::Finished));
    assert_eq!(context.document_count(), 4);

    let shared = location("/dir/shared.yaml");
    let record = context.get_document(&shared).unwrap();
    assert!(record.document_location == shared);
    assert_eq!(record.factory, DocumentFactory::Oas30);
    assert!(record.referenced_documents.is_empty());
    assert!(record.embedded_documents.is_empty());
    assert_eq!(record.node_locations.len(), 5);
    assert!(context.resolve_document_retrieval_location(&shared).unwrap() == shared);
    assert!(context.resolve_document_location(&location("/dir/shared.yaml#/p/name")) == shared);
    assert!(context.find_document_location(&location("/dir/shared.yaml#/q")).is_none());
    assert!(context.get_node(&location("/dir/shared.yaml#/p/in")).is_some());

    let chain = context.get_document_and_antecedents(&shared).unwrap();
    let chain: Vec<String> = chain
        .iter()
        .map(|document| document.document_location.to_string())
        .collect();
    assert_eq!(chain.len(), 3);
    assert_eq!(chain[0], "/dir/shared.yaml#");
    assert_eq!(chain[2], "/dir/top.yaml#");
    assert!(context.get_document(&location("/dir/other.yaml")).is_err());
    assert_eq!(
        context.get_document_and_antecedents(&location("/dir/other.yaml")).err(),
        Some(DocumentError::NotFound)
    );
}

#[test]
fn the_documents_that_were_last_referred_to_are_loaded_first() {
    let mut context = context();
    let top = location("/dir/top.yaml");
    context
        .load_from_location(&top, &top, None, DocumentType::OpenApiV30)
        .unwrap();
    context.load_fetched(TOP).unwrap();
    context.load_fetched(LEFT).unwrap();
    context.load_fetched(RIGHT).unwrap();
    context.load_fetched(SHARED).unwrap();
    // The right document was scheduled last, so it was loaded before the
    // left one, and it is the one that led to the shared document.
    let shared = context.get_document(&location("/dir/shared.yaml")).unwrap();
    assert_eq!(
        shared.antecedent_location.as_ref().unwrap().to_string(),
        "/dir/right.yaml#"
    );
    let left = context.get_document(&location("/dir/left.yaml")).unwrap();
    assert_eq!(left.antecedent_location.as_ref().unwrap().to_string(), "/dir/top.yaml#");
    let top = context.get_document(&location("/dir/top.yaml")).unwrap();
    assert!(top.antecedent_location.is_none());
}

#[test]
fn a_kind_without_a_reader_is_not_loaded() {
    let mut context = DocumentContext::new();
    let place = location("/a.yaml");
    let node = parse_document(ALONE).unwrap();
    let result = context.load_from_node(&place, &place, None, node, DocumentType::OpenApiV30);
    assert_eq!(result.err(), Some(DocumentError::NotFound));
    assert_eq!(context.get_factory(DocumentType::OpenApiV30), None);
}

#[test]
fn a_document_that_does_not_tell_its_kind_is_taken_for_the_default() {
    let mut context = context();
    let place = location("/a.yaml");
    let node = parse_document("paths: {}").unwrap();
    let action = context
        .load_from_node(&place, &place, None, node, DocumentType::OpenApiV30)
        .unwrap();
    assert!(matches!(action, LoadAction::Finished));
    assert_eq!(context.document_count(), 1);

    let other = location("/b.yaml");
    let node = parse_document("paths: {}").unwrap();
    let result = context.load_from_node(&other, &other, None, node, DocumentType::SwaggerV2);
    assert_eq!(result.err(), Some(DocumentError::NotFound));
}

#[test]
fn a_reader_that_is_set_again_takes_the_place_of_the_first() {
    let mut context = context();
    assert_eq!(
        context.get_factory(DocumentType::OpenApiV30),
        Some(DocumentFactory::Oas30)
    );
    context
        .register_factory(DocumentType::OpenApiV30, DocumentFactory::Oas31)
        .unwrap();
    assert_eq!(
        context.get_factory(DocumentType::OpenApiV30),
        Some(DocumentFactory::Oas31)
    );
    assert_eq!(context.get_factory(DocumentType::OpenApiV31), None);
    // The reader for version 3.1 follows no reference, so nothing is
    // fetched for a document that refers to other files.
    let top = location("/dir/top.yaml");
    let node = parse_document(TOP).unwrap();
    let action = context
        .load_from_node(&top, &top, None, node, DocumentType::OpenApiV30)
        .unwrap();
    assert!(matches!(action, LoadAction::Finished));
    assert_eq!(context.document_count(), 1);
    assert_eq!(
        context.get_document(&top).unwrap().factory,
        DocumentFactory::Oas31
    );
}

#[test]
fn a_node_belongs_to_one_document_only() {
    let mut context = context();
    let inner = location("/d.yaml#/a");
    let node = parse_document("x: 1").unwrap();
    let action = context
        .load_from_node(&inner, &inner, None, node, DocumentType::OpenApiV30)
        .unwrap();
    assert!(matches!(action, LoadAction::Finished));
    let outer = location("/d.yaml");
    let node = parse_document("a:\n  x: 1").unwrap();
    let result = context.load_from_node(&outer, &outer, None, node, DocumentType::OpenApiV30);
    assert_eq!(result.err(), Some(DocumentError::Conflict));
}

#[test]
fn a_node_that_is_cached_does_not_change() {
    let mut context = context();
    let inner = location("/d.yaml#/a");
    let node = parse_document("x: 1").unwrap();
    context
        .load_from_node(&inner, &inner, None, node, DocumentType::OpenApiV30)
        .unwrap();
    let outer = location("/d.yaml");
    let node = parse_document("a:\n  x: 2").unwrap();
    let result = context.load_from_node(&outer, &outer, None, node, DocumentType::OpenApiV30);
    assert_eq!(result.err(), Some(DocumentError::ContentMismatch));
    let kept = context.get_node(&location("/d.yaml#/a/x")).unwrap();
    assert!(kept.equals(&parse_document("1").unwrap()));
}

#[test]
fn a_text_that_cannot_be_read_ends_the_loading() {
    let mut context = context();
    let place = location("/a.yaml");
    context
        .load_from_location(&place, &place, None, DocumentType::OpenApiV30)
        .unwrap();
    assert_eq!(
        context.load_fetched("a: [1, 2").err(),
        Some(DocumentError::InvalidDocument)
    );
}

#[test]
fn a_reference_that_is_no_location_ends_the_loading() {
    let mut context = context();
    let place = location("/a.yaml");
    let node = parse_document("paths:\n  /a:\n    $ref: \"%FF\"").unwrap();
    let result = context.load_from_node(&place, &place, None, node, DocumentType::OpenApiV30);
    assert_eq!(result.err(), Some(DocumentError::InvalidReference));
}

#[test]
fn a_reader_reports_the_nodes_and_the_references_of_its_document() {
    let mut context = context();
    let place = location("/dir/top.yaml");
    let node = parse_document(TOP).unwrap();
    // The reader for version 3.1 is used to load, so that nothing waits.
    context
        .register_factory(DocumentType::OpenApiV30, DocumentFactory::Oas31)
        .unwrap();
    context
        .load_from_node(&place, &place, None, node, DocumentType::OpenApiV30)
        .unwrap();
    let configuration = || DocumentConfiguration {
        retrieval_location: location("/dir/top.yaml"),
        given_location: location("/dir/given.yaml"),
        antecedent_location: Some(location("/dir/before.yaml")),
    };
    let record = DocumentFactory::Oas30
        .create(context.node_cache(), configuration())
        .unwrap();
    assert_eq!(record.document_location.to_string(), "/dir/top.yaml#");
    assert_eq!(record.given_location.to_string(), "/dir/given.yaml#");
    assert_eq!(
        record.antecedent_location.as_ref().unwrap().to_string(),
        "/dir/before.yaml#"
    );
    let referenced: Vec<String> = record
        .referenced_documents
        .iter()
        .map(|document| document.retrieval_location.to_string())
        .collect();
    assert_eq!(referenced, vec!["/dir/left.yaml#", "/dir/right.yaml#"]);
    let nodes: Vec<String> = record
        .node_locations
        .iter()
        .map(|location| location.to_string())
        .collect();
    assert_eq!(
        nodes,
        vec![
            "/dir/top.yaml#",
            "/dir/top.yaml#/openapi",
            "/dir/top.yaml#/paths",
            "/dir/top.yaml#/paths/~1left",
            "/dir/top.yaml#/paths/~1left/%24ref",
            "/dir/top.yaml#/paths/~1right",
            "/dir/top.yaml#/paths/~1right/%24ref",
        ]
    );
    let plain = DocumentFactory::Oas31
        .create(context.node_cache(), configuration())
        .unwrap();
    assert!(plain.referenced_documents.is_empty());
    assert_eq!(plain.node_locations.len(), 7);
    let missing = DocumentFactory::Oas30.create(
        context.node_cache(),
        DocumentConfiguration {
            retrieval_location: location("/dir/none.yaml"),
            given_location: location("/dir/none.yaml"),
            antecedent_location: None,
        },
    );
    assert_eq!(missing.err(), Some(DocumentError::NodeNotFound));
}
