use oa42_core::documents::oas30::nodes::{
    Api, Body, NodeOrReference, Operation, OperationResult, Parameter, Path, Reference,
    ResponseHeader,
};
use oa42_core::documents::oas30::Document;
use oa42_core::error::DocumentError;
use oa42_core::models::Method;
use oa42_core::utils::node::Node;
use oa42_core::utils::node_location::Location;
use oa42_core::utils::yaml::parse_document;

fn tree(text: &str) -> Node {
    parse_document(text).unwrap()
}

fn pointers(found: Option<Vec<Vec<String>>>) -> Option<Vec<String>> {
    found.map(|pointers| pointers.iter().map(|pointer| pointer.join("/")).collect())
}

#[test]
fn the_paths_of_an_api_are_the_members_under_paths() {
    let node = tree("paths:\n  /b: {}\n  /a: {}\ninfo: {}");
    let api = Api::new(&node);
    assert_eq!(
        pointers(api.path_pointers()),
        Some(vec!["paths//a".to_string(), "paths//b".to_string()])
    );
    let paths = api.paths().unwrap();
    assert_eq!(paths.len(), 2);
    assert_eq!(paths[0].pointer, vec!["paths".to_string(), "/a".to_string()]);
    let none = tree("info: {}");
    assert!(Api::new(&none).paths().is_none());
    assert_eq!(pointers(Api::new(&none).path_pointers()), None);
    let list = tree("paths: [1]");
    assert!(Api::new(&list).paths().is_none());
}

#[test]
fn the_operations_of_a_path_are_the_members_that_are_methods() {
    let node = tree(
        "summary: s\nget: {}\nparameters:\n  - name: a\n  - $ref: '#/p'\npost: {}\nx-other: {}\nGET: {}",
    );
    let path = Path::new(&node);
    assert_eq!(
        pointers(path.operation_pointers()),
        Some(vec!["get".to_string(), "post".to_string()])
    );
    assert_eq!(path.operations().unwrap().len(), 2);
    assert_eq!(
        pointers(path.parameter_pointers()),
        Some(vec!["parameters/0".to_string(), "parameters/1".to_string()])
    );
    assert_eq!(path.request_parameters().unwrap().len(), 2);
    let scalar = tree("text");
    assert!(Path::new(&scalar).operations().is_none());
    assert!(Path::new(&scalar).request_parameters().is_none());
    assert_eq!(Method::from_key("delete"), Some(Method::Delete));
    assert_eq!(Method::from_key("options"), Some(Method::Options));
    assert_eq!(Method::from_key("head"), Some(Method::Head));
    assert_eq!(Method::from_key("patch"), Some(Method::Patch));
    assert_eq!(Method::from_key("trace"), Some(Method::Trace));
    assert_eq!(Method::from_key("put"), Some(Method::Put));
    assert_eq!(Method::from_key("connect"), None);
}

#[test]
fn an_operation_is_read_member_by_member() {
    let node = tree(
        r##"
name: n
summary: s
description: d
deprecated: true
parameters:
  - name: a
    in: query
  - name: b
    in: header
  - name: c
    in: query
  - $ref: "#/p"
  - name: d
    in: cookie
  - name: e
    in: path
requestBody:
  content:
    a/b: {}
responses:
  "200": {}
  default: {}
"##,
    );
    let operation = Operation::new(&node);
    assert_eq!(operation.name(), Some("n"));
    assert_eq!(operation.summary(), Some("s"));
    assert_eq!(operation.description(), Some("d"));
    assert_eq!(operation.deprecated(), Some(true));
    assert_eq!(operation.request_parameters().unwrap().len(), 6);
    assert_eq!(
        pointers(operation.query_parameter_pointers()),
        Some(vec!["parameters/0".to_string(), "parameters/2".to_string()])
    );
    assert_eq!(
        pointers(operation.header_parameter_pointers()),
        Some(vec!["parameters/1".to_string()])
    );
    assert_eq!(
        pointers(operation.cookie_parameter_pointers()),
        Some(vec!["parameters/4".to_string()])
    );
    assert_eq!(
        pointers(operation.path_parameter_pointers()),
        Some(vec!["parameters/5".to_string()])
    );
    assert_eq!(
        pointers(operation.body_pointers()),
        Some(vec!["requestBody/content/a/b".to_string()])
    );
    assert_eq!(
        operation.bodies().unwrap()[0].pointer,
        vec!["requestBody".to_string(), "content".to_string(), "a/b".to_string()]
    );
    assert_eq!(
        pointers(operation.operation_result_pointers()),
        Some(vec!["responses/200".to_string(), "responses/default".to_string()])
    );
    let bare = tree("name: 1\ndeprecated: yes");
    let operation = Operation::new(&bare);
    assert_eq!(operation.name(), None);
    assert_eq!(operation.deprecated(), None);
    assert_eq!(operation.summary(), None);
    assert!(operation.bodies().is_none());
    assert_eq!(pointers(operation.query_parameter_pointers()), None);
    assert_eq!(pointers(operation.operation_result_pointers()), None);
}

#[test]
fn an_answer_is_read_member_by_member() {
    let node = tree("description: d\nheaders:\n  x-a: {}\n  x-b: {}\ncontent:\n  a/b:\n    schema: {}");
    let result = OperationResult::new(&node);
    assert_eq!(result.description(), Some("d"));
    assert_eq!(
        pointers(result.header_parameter_pointers()),
        Some(vec!["headers/x-a".to_string(), "headers/x-b".to_string()])
    );
    assert_eq!(pointers(result.body_pointers()), Some(vec!["content/a/b".to_string()]));
    assert_eq!(result.response_headers().unwrap().len(), 2);
    let bodies = result.bodies().unwrap();
    assert_eq!(
        Body::new(bodies[0].node).schema_pointer(),
        Some(vec!["schema".to_string()])
    );
    let empty = tree("{}");
    let result = OperationResult::new(&empty);
    assert_eq!(result.description(), None);
    assert_eq!(pointers(result.header_parameter_pointers()), None);
    assert_eq!(pointers(result.body_pointers()), None);
    assert_eq!(Body::new(&empty).schema_pointer(), None);
}

#[test]
fn parameters_and_headers_are_read_member_by_member() {
    let node = tree("name: n\nin: query\nrequired: true\nschema: {}");
    let parameter = Parameter::new(&node);
    assert_eq!(parameter.name(), Some("n"));
    assert_eq!(parameter.place(), Some("query"));
    assert_eq!(parameter.required(), Some(true));
    assert_eq!(parameter.schema_pointer(), Some(vec!["schema".to_string()]));
    let header = ResponseHeader::new(&node);
    assert_eq!(header.required(), Some(true));
    assert_eq!(header.schema_pointer(), Some(vec!["schema".to_string()]));
    let bare = tree("required: no");
    assert_eq!(Parameter::new(&bare).name(), None);
    assert_eq!(Parameter::new(&bare).place(), None);
    assert_eq!(Parameter::new(&bare).required(), None);
    assert_eq!(Parameter::new(&bare).schema_pointer(), None);
    assert_eq!(ResponseHeader::new(&bare).required(), None);
    assert_eq!(ResponseHeader::new(&bare).schema_pointer(), None);
}

#[test]
fn a_reference_is_told_from_a_node_of_its_own() {
    let reference = tree("$ref: '#/a'\nname: n");
    assert_eq!(Reference::new(&reference).reference(), Some("#/a"));
    assert!(matches!(
        NodeOrReference::new(&reference),
        NodeOrReference::Reference("#/a")
    ));
    assert!(NodeOrReference::new(&reference).into_node().is_none());
    let own = tree("$ref: 1\nname: n");
    assert_eq!(Reference::new(&own).reference(), None);
    assert!(NodeOrReference::new(&own).into_node().unwrap().equals(&own));
}

#[test]
fn a_reference_is_read_at_the_place_where_it_stands() {
    let place = Location::parse("/d/e.yaml#/paths/~1a").unwrap();
    let target = Document::resolve_reference(&place, "#/shared/a").unwrap();
    assert_eq!(target.to_string(), "/d/e.yaml#/shared/a");
    let target = Document::resolve_reference(&place, "f.yaml#/x").unwrap();
    assert_eq!(target.to_string(), "/d/f.yaml#/x");
    let target = Document::resolve_reference(&place, "http://h/g.yaml").unwrap();
    assert_eq!(target.to_string(), "http://h/g.yaml#");
    assert_eq!(
        Document::resolve_reference(&place, "%FF").err(),
        Some(DocumentError::InvalidReference)
    );
    let bare = Location::parse("#/a").unwrap();
    assert_eq!(
        Document::resolve_reference(&bare, "f.yaml").err(),
        Some(DocumentError::InvalidReference)
    );
}

#[test]
fn single_entities_are_built_from_their_nodes() {
    let reader = Document::new(Location::parse("/d.yaml").unwrap());
    assert_eq!(
        reader.get_default_schema_id(),
        "https://spec.openapis.org/oas/3.0/schema/2021-09-28#/definitions/Schema"
    );
    let place = Location::parse("/d.yaml#/x").unwrap();
    let node = tree("name: n\nrequired: true\nschema: {}");
    let body = reader
        .make_body_model(place.clone(), Body::new(&node), "a/b".to_string())
        .unwrap();
    assert_eq!(body.content_type, "a/b");
    assert!(body.location == place);
    assert_eq!(body.schema_id.unwrap().to_string(), "/d.yaml#/x/schema");
    assert!(!body.mockable);
    let parameter = reader
        .make_parameter_model_request(place.clone(), Parameter::new(&node))
        .unwrap();
    assert_eq!(parameter.name, "n");
    assert!(parameter.required);
    assert!(!parameter.mockable);
    let header = reader
        .make_parameter_model_response(place.clone(), ResponseHeader::new(&node), "x-h".to_string())
        .unwrap();
    assert_eq!(header.name, "x-h");
    assert!(header.required);
    assert_eq!(header.schema_id.unwrap().to_string(), "/d.yaml#/x/schema");
    let found = reader.get_schema_locations_from_body(&place, Body::new(&node));
    assert_eq!(found.len(), 1);
    assert_eq!(found[0].to_string(), "/d.yaml#/x/schema");
    let bare = tree("{}");
    assert!(reader
        .get_schema_locations_from_request_parameter(&place, Parameter::new(&bare))
        .is_empty());
    assert!(reader
        .get_schema_locations_from_response_header(&place, ResponseHeader::new(&bare))
        .is_empty());
}
