use oa42_core::documents::oas30::Document;
use oa42_core::documents::{DocumentInterface, DocumentType, ReferencedLocations, SchemaLocations};
use oa42_core::error::DocumentError;
use oa42_core::models::Method;
use oa42_core::utils::document_context::{DocumentContext, DocumentFactory, LoadAction};
use oa42_core::utils::node_location::Location;

const PETS: &str = r##"
openapi: 3.0.2
paths:
  /pets:
    get:
      name: list-pets
      responses:
        "200":
          description: ok
    post:
      name: add-pet
      parameters:
        - $ref: "#/components/parameters/dry-run"
      responses:
        default:
          description: failure
        "200":
          description: ok
components:
  parameters:
    dry-run:
      name: dry-run
      in: query
      required: true
      schema:
        type: boolean
"##;

fn load(text: &str, address: &str) -> (DocumentContext, Location) {
    let mut context = DocumentContext::new();
    context
        .register_factory(DocumentType::OpenApiV30, DocumentFactory::Oas30)
        .unwrap();
    let location = Location::parse(address).unwrap();
    let action = context
        .load_from_location(&location, &location, None, DocumentType::OpenApiV30)
        .unwrap();
    match action {
        LoadAction::Fetch(asked) => assert_eq!(asked, address),
        LoadAction::Finished => panic!("nothing was cached, so the document has to be fetched"),
    }
    let action = context.load_fetched(text).unwrap();
    assert!(matches!(action, LoadAction::Finished));
    (context, location)
}

#[test]
fn a_parameter_that_is_referred_to_keeps_its_own_location() {
    let (context, location) = load(PETS, "/documents/pets.yaml");
    let api = Document::new(location.clone())
        .get_api_model(context.node_cache())
        .unwrap();
    assert_eq!(api.paths.len(), 1);
    let path = &api.paths[0];
    assert_eq!(path.pattern, "/pets");
    assert_eq!(path.id, 1);
    assert_eq!(path.operations.len(), 2);
    let get = &path.operations[0];
    let post = &path.operations[1];
    assert_eq!(get.method, Method::Get);
    assert_eq!(post.method, Method::Post);
    assert!(get.query_parameters.is_empty());
    assert_eq!(post.query_parameters.len(), 1);
    let parameter = &post.query_parameters[0];
    let target = Location::parse("/documents/pets.yaml#/components/parameters/dry-run").unwrap();
    let site = Location::parse("/documents/pets.yaml#/paths/~1pets/post/parameters/0").unwrap();
    assert!(parameter.location == target);
    assert!(parameter.location != site);
    assert_eq!(parameter.name, "dry-run");
    assert!(parameter.required);
    let schema = Location::parse("/documents/pets.yaml#/components/parameters/dry-run/schema").unwrap();
    assert!(parameter.schema_id.as_ref().unwrap() == &schema);
}

#[test]
fn answers_are_ordered_by_status_kind() {
    let (context, location) = load(PETS, "/documents/pets.yaml");
    let api = Document::new(location)
        .get_api_model(context.node_cache())
        .unwrap();
    let post = &api.paths[0].operations[1];
    let kinds: Vec<&str> = post
        .operation_results
        .iter()
        .map(|result| result.status_kind.as_str())
        .collect();
    assert_eq!(kinds, vec!["200", "default"]);
}

#[test]
fn a_reference_to_a_missing_node_is_reported() {
    let text = r##"
openapi: 3.0.0
paths:
  /a:
    $ref: "#/nowhere"
"##;
    let (context, location) = load(text, "/a.yaml");
    let result = Document::new(location).get_api_model(context.node_cache());
    assert_eq!(result.err(), Some(DocumentError::NodeNotFound));
}

const SHOP: &str = r##"
openapi: 3.0.3
paths:
  /orders/{id}:
    parameters:
      - name: id
        in: path
        required: true
        schema:
          type: string
      - name: trace
        in: header
    put:
      name: replace-order
      summary: Replaces an order
      description: Puts a new order in the place of an old one.
      deprecated: true
      parameters:
        - name: session
          in: cookie
        - name: force
          in: query
          schema:
            type: boolean
        - name: odd
          in: nowhere
      requestBody:
        content:
          application/json:
            schema:
              type: object
          text/plain: {}
      responses:
        "404":
          description: no such order
          headers:
            x-reason:
              required: true
              schema:
                type: string
          content:
            application/json:
              schema:
                type: object
        "200":
          description: replaced
  /articles:
    get:
      name: list-articles
  /baskets:
    delete:
      name: empty-basket
"##;

fn text_of(location: &Location) -> String {
    location.to_string()
}

#[test]
fn paths_are_numbered_from_one_in_the_order_of_the_document() {
    let (context, location) = load(SHOP, "/shop.yaml");
    let api = Document::new(location).get_api_model(context.node_cache()).unwrap();
    let numbered: Vec<(usize, &str)> = api
        .paths
        .iter()
        .map(|path| (path.id, path.pattern.as_str()))
        .collect();
    assert_eq!(numbered, vec![(1, "/articles"), (2, "/baskets"), (3, "/orders/{id}")]);
    assert!(api.authentication.is_empty());
    assert_eq!(text_of(&api.location), "/shop.yaml#");
}

#[test]
fn parameters_of_the_path_and_of_the_operation_are_sorted_into_their_places() {
    let (context, location) = load(SHOP, "/shop.yaml");
    let api = Document::new(location).get_api_model(context.node_cache()).unwrap();
    let operation = &api.paths[2].operations[0];
    assert_eq!(operation.method, Method::Put);
    assert_eq!(operation.name, "replace-order");
    assert_eq!(operation.summary.as_deref(), Some("Replaces an order"));
    assert_eq!(
        operation.description.as_deref(),
        Some("Puts a new order in the place of an old one.")
    );
    assert!(operation.deprecated);
    assert!(!operation.mockable);
    assert!(operation.authentication_requirements.is_empty());
    assert_eq!(text_of(&operation.location), "/shop.yaml#/paths/~1orders~1%7Bid%7D/put");

    assert_eq!(operation.path_parameters.len(), 1);
    assert_eq!(operation.path_parameters[0].name, "id");
    assert!(operation.path_parameters[0].required);
    assert_eq!(
        text_of(&operation.path_parameters[0].location),
        "/shop.yaml#/paths/~1orders~1%7Bid%7D/parameters/0"
    );
    assert_eq!(
        text_of(operation.path_parameters[0].schema_id.as_ref().unwrap()),
        "/shop.yaml#/paths/~1orders~1%7Bid%7D/parameters/0/schema"
    );

    assert_eq!(operation.header_parameters.len(), 1);
    assert_eq!(operation.header_parameters[0].name, "trace");
    assert!(!operation.header_parameters[0].required);
    assert!(operation.header_parameters[0].schema_id.is_none());

    assert_eq!(operation.cookie_parameters.len(), 1);
    assert_eq!(operation.cookie_parameters[0].name, "session");

    assert_eq!(operation.query_parameters.len(), 1);
    assert_eq!(operation.query_parameters[0].name, "force");
    assert_eq!(
        text_of(&operation.query_parameters[0].location),
        "/shop.yaml#/paths/~1orders~1%7Bid%7D/put/parameters/1"
    );
}

#[test]
fn bodies_and_answers_are_built_with_their_own_locations() {
    let (context, location) = load(SHOP, "/shop.yaml");
    let api = Document::new(location).get_api_model(context.node_cache()).unwrap();
    let operation = &api.paths[2].operations[0];
    let types: Vec<&str> = operation
        .bodies
        .iter()
        .map(|body| body.content_type.as_str())
        .collect();
    assert_eq!(types, vec!["application/json", "text/plain"]);
    assert_eq!(
        text_of(&operation.bodies[0].location),
        "/shop.yaml#/paths/~1orders~1%7Bid%7D/put/requestBody/content/application~1json"
    );
    assert!(operation.bodies[0].schema_id.is_some());
    assert!(operation.bodies[1].schema_id.is_none());

    let kinds: Vec<&str> = operation
        .operation_results
        .iter()
        .map(|result| result.status_kind.as_str())
        .collect();
    assert_eq!(kinds, vec!["200", "404"]);
    let missing = &operation.operation_results[1];
    assert_eq!(missing.description.as_deref(), Some("no such order"));
    assert!(missing.status_codes.is_empty());
    assert_eq!(
        text_of(&missing.location),
        "/shop.yaml#/paths/~1orders~1%7Bid%7D/put/responses/404"
    );
    assert_eq!(missing.header_parameters.len(), 1);
    assert_eq!(missing.header_parameters[0].name, "x-reason");
    assert!(missing.header_parameters[0].required);
    assert_eq!(missing.bodies.len(), 1);
    assert_eq!(missing.bodies[0].content_type, "application/json");
    assert_eq!(
        text_of(missing.bodies[0].schema_id.as_ref().unwrap()),
        "/shop.yaml#/paths/~1orders~1%7Bid%7D/put/responses/404/content/application~1json/schema"
    );
}

#[test]
fn the_model_is_the_same_each_time_it_is_built() {
    let (context, location) = load(SHOP, "/shop.yaml");
    let reader = Document::new(location);
    let first = reader.get_api_model(context.node_cache()).unwrap();
    let second = reader.get_api_model(context.node_cache()).unwrap();
    assert_eq!(format!("{:?}", first), format!("{:?}", second));
}

#[test]
fn the_locations_of_the_schemas_come_in_the_order_of_the_document() {
    let (context, location) = load(SHOP, "/shop.yaml");
    let found = Document::new(location)
        .get_schema_locations(context.node_cache())
        .unwrap();
    let found: Vec<String> = found.iter().map(text_of).collect();
    assert_eq!(
        found,
        vec![
            "/shop.yaml#/paths/~1orders~1%7Bid%7D/parameters/0/schema",
            "/shop.yaml#/paths/~1orders~1%7Bid%7D/put/parameters/1/schema",
            "/shop.yaml#/paths/~1orders~1%7Bid%7D/put/responses/404/headers/x-reason/schema",
            "/shop.yaml#/paths/~1orders~1%7Bid%7D/put/responses/404/content/application~1json/schema",
        ]
    );
}

#[test]
fn the_locations_that_a_document_refers_to_are_read_where_they_stand() {
    let (context, location) = load(PETS, "/documents/pets.yaml");
    let found = Document::new(location)
        .get_referenced_locations(context.node_cache())
        .unwrap();
    let found: Vec<String> = found.iter().map(text_of).collect();
    assert_eq!(found, vec!["/documents/pets.yaml#/components/parameters/dry-run"]);
}

#[test]
fn an_operation_without_a_name_is_refused() {
    let text = r##"
openapi: 3.0.0
paths:
  /a:
    get:
      summary: nameless
"##;
    let (context, location) = load(text, "/a.yaml");
    let result = Document::new(location).get_api_model(context.node_cache());
    assert_eq!(result.err(), Some(DocumentError::MissingName));
}

#[test]
fn a_parameter_without_a_name_is_refused_only_where_it_has_a_place() {
    let placed = r##"
openapi: 3.0.0
paths:
  /a:
    get:
      name: a
      parameters:
        - in: query
"##;
    let (context, location) = load(placed, "/a.yaml");
    let result = Document::new(location).get_api_model(context.node_cache());
    assert_eq!(result.err(), Some(DocumentError::MissingName));

    let unplaced = r##"
openapi: 3.0.0
paths:
  /a:
    get:
      name: a
      parameters:
        - required: true
"##;
    let (context, location) = load(unplaced, "/b.yaml");
    let api = Document::new(location).get_api_model(context.node_cache()).unwrap();
    let operation = &api.paths[0].operations[0];
    assert!(operation.query_parameters.is_empty());
    assert!(operation.header_parameters.is_empty());
    assert!(operation.path_parameters.is_empty());
    assert!(operation.cookie_parameters.is_empty());
}

#[test]
fn a_document_that_was_not_loaded_has_no_model() {
    let context = DocumentContext::new();
    let location = Location::parse("/nowhere.yaml").unwrap();
    let reader = Document::new(location.clone());
    assert!(reader.get_document_location() == location);
    assert_eq!(
        reader.get_api_model(context.node_cache()).err(),
        Some(DocumentError::NodeNotFound)
    );
    assert_eq!(
        reader.get_referenced_locations(context.node_cache()).err(),
        Some(DocumentError::NodeNotFound)
    );
    assert_eq!(
        reader.get_schema_locations(context.node_cache()).err(),
        Some(DocumentError::NodeNotFound)
    );
}

#[test]
fn a_path_that_is_a_reference_is_built_at_the_place_it_refers_to() {
    let text = r##"
openapi: 3.0.0
paths:
  /a:
    $ref: "#/shared/a"
shared:
  a:
    get:
      name: get-a
"##;
    let (context, location) = load(text, "/a.yaml");
    let api = Document::new(location).get_api_model(context.node_cache()).unwrap();
    assert_eq!(api.paths.len(), 1);
    assert_eq!(api.paths[0].pattern, "/a");
    assert_eq!(text_of(&api.paths[0].location), "/a.yaml#/shared/a");
    assert_eq!(text_of(&api.paths[0].operations[0].location), "/a.yaml#/shared/a/get");
}
