//! The reading of a document of version 3.0: the model of its API, the
//! locations that it refers to, and the locations of its schemas.
use super::nodes::body::schema_pointer_of;
use super::nodes::node_or_reference::reference_of;
use super::nodes::operation::request_bodies;
use super::nodes::path::path_operations;
use super::nodes::{
    Api, Body, NodeOrReference, Operation, OperationResult, Parameter, Path, ResponseHeader,
};
use crate::documents::interface::{agrees, DocumentInterface, ReferencedLocations, SchemaLocations};
use crate::error::DocumentError;
use crate::models;
use crate::models::method::method_of;
use crate::models::{
    ApiView, BodyView, Method, OperationResultView, OperationView, ParameterView, PathView,
};
use crate::utils::node::{copy_pointer, flattened, same_text, Child, EntryView, Node, NodeView};
use crate::utils::node_cache::{CacheView, NodeCache};
use crate::utils::node_location::{
    joined, parsed_location, pushed, resolvable, Location, LocationView,
};
use crate::utils::text::{compare_text, lemma_text_le_total, lemma_text_le_transitive, text_le};
use vstd::prelude::*;

verus! {

/// What a node is in the end, once a reference was followed: the node and
/// its own location.
pub struct ResolvedView {
    pub location: LocationView,
    pub node: NodeView,
}

/// A node and its own location, once a reference was followed.
pub struct Resolved<'a> {
    pub location: Location,
    pub node: &'a Node,
}

impl<'a> DeepView for Resolved<'a> {
    type V = ResolvedView;

    open spec fn deep_view(&self) -> ResolvedView {
        ResolvedView { location: self.location@, node: self.node@ }
    }
}

/// The location that a reference names when it is read at a location.
pub open spec fn reference_target(
    location: LocationView,
    reference: Seq<char>,
) -> Result<LocationView, DocumentError> {
    match parsed_location(reference) {
        None => Err(DocumentError::InvalidReference),
        Some(other) => if resolvable(location, other) {
            Ok(joined(location, other))
        } else {
            Err(DocumentError::InvalidReference)
        },
    }
}

/// The node that stands at a location, or the node that it refers to. A
/// reference is read at the location where it stands, and the node it names
/// has to be in the cache.
#[verifier::opaque]
pub open spec fn dereferenced(
    cache: CacheView,
    location: LocationView,
    node: NodeView,
) -> Result<ResolvedView, DocumentError> {
    match reference_of(node) {
        None => Ok(ResolvedView { location, node }),
        Some(reference) => match reference_target(location, reference) {
            Err(error) => Err(error),
            Ok(target) => if cache.contains_key(target) {
                Ok(ResolvedView { location: target, node: cache[target] })
            } else {
                Err(DocumentError::NodeNotFound)
            },
        },
    }
}

/// The location of the schema of a node, where it has one.
pub open spec fn schema_id_of(location: LocationView, node: NodeView) -> Option<LocationView> {
    match schema_pointer_of(node) {
        Some(pointer) => Some(pushed(location, pointer)),
        None => None,
    }
}

/// The model of a body.
pub open spec fn body_model(
    location: LocationView,
    node: NodeView,
    content_type: Seq<char>,
) -> BodyView {
    BodyView { location, content_type, schema_id: schema_id_of(location, node), mockable: false }
}

/// The name that a pointer ends in.
pub open spec fn key_of(pointer: Seq<Seq<char>>) -> Seq<char> {
    if pointer.len() > 0 {
        pointer.last()
    } else {
        Seq::empty()
    }
}

/// The models of the bodies that are declared below a location, one for each
/// content type.
pub open spec fn body_models(location: LocationView, entries: Seq<EntryView>) -> Seq<BodyView> {
    Seq::new(
        entries.len(),
        |i: int|
            body_model(pushed(location, entries[i].pointer), entries[i].node, key_of(entries[i].pointer)),
    )
}

/// The model of a parameter of a request. A parameter without a name has
/// none.
pub open spec fn request_parameter_model(
    location: LocationView,
    node: NodeView,
) -> Result<ParameterView, DocumentError> {
    match node.text_member("name"@) {
        Some(name) => Ok(
            ParameterView {
                location,
                name,
                required: node.truth_member("required"@) == Some(true),
                mockable: false,
                schema_id: schema_id_of(location, node),
            },
        ),
        None => Err(DocumentError::MissingName),
    }
}

/// The model of a header of a response.
pub open spec fn response_header_model(
    location: LocationView,
    node: NodeView,
    name: Seq<char>,
) -> ParameterView {
    ParameterView {
        location,
        name,
        required: node.truth_member("required"@) == Some(true),
        mockable: false,
        schema_id: schema_id_of(location, node),
    }
}

/// The entries of a list from `start` on, each followed to the node that it
/// stands for. The first reference that cannot be followed decides.
pub open spec fn resolved_from(
    cache: CacheView,
    base: LocationView,
    entries: Seq<EntryView>,
    start: int,
) -> Result<Seq<ResolvedView>, DocumentError>
    decreases entries.len() - start,
{
    if start < 0 || start >= entries.len() {
        Ok(Seq::empty())
    } else {
        match dereferenced(cache, pushed(base, entries[start].pointer), entries[start].node) {
            Err(error) => Err(error),
            Ok(first) => match resolved_from(cache, base, entries, start + 1) {
                Err(error) => Err(error),
                Ok(rest) => Ok(seq![first] + rest),
            },
        }
    }
}

/// The models of the headers of a response, each under the name that it is
/// declared with.
pub open spec fn response_header_models(
    cache: CacheView,
    location: LocationView,
    entries: Seq<EntryView>,
) -> Result<Seq<ParameterView>, DocumentError> {
    match resolved_from(cache, location, entries, 0) {
        Err(error) => Err(error),
        Ok(resolved) => Ok(
            Seq::new(
                resolved.len(),
                |i: int|
                    response_header_model(
                        resolved[i].location,
                        resolved[i].node,
                        key_of(entries[i].pointer),
                    ),
            ),
        ),
    }
}

/// The model of one answer of an operation.
#[verifier::opaque]
pub open spec fn operation_result_model(
    cache: CacheView,
    location: LocationView,
    node: NodeView,
    status_kind: Seq<char>,
) -> Result<OperationResultView, DocumentError> {
    match response_header_models(cache, location, flattened(node.members_under("headers"@))) {
        Err(error) => Err(error),
        Ok(header_parameters) => Ok(
            OperationResultView {
                location,
                description: node.text_member("description"@),
                status_kind,
                status_codes: Seq::empty(),
                mockable: false,
                header_parameters,
                bodies: body_models(location, flattened(node.members_under("content"@))),
            },
        ),
    }
}

/// The models of the answers of an operation from `start` on, in the order
/// of the document.
pub open spec fn result_models_from(
    cache: CacheView,
    location: LocationView,
    entries: Seq<EntryView>,
    start: int,
) -> Result<Seq<OperationResultView>, DocumentError>
    decreases entries.len() - start,
{
    if start < 0 || start >= entries.len() {
        Ok(Seq::empty())
    } else {
        match dereferenced(cache, pushed(location, entries[start].pointer), entries[start].node) {
            Err(error) => Err(error),
            Ok(resolved) => match operation_result_model(
                cache,
                resolved.location,
                resolved.node,
                key_of(entries[start].pointer),
            ) {
                Err(error) => Err(error),
                Ok(first) => match result_models_from(cache, location, entries, start + 1) {
                    Err(error) => Err(error),
                    Ok(rest) => Ok(seq![first] + rest),
                },
            },
        }
    }
}

/// The place of a new answer among answers that are in order: behind all
/// those whose status kind comes before its own or equals it.
pub open spec fn insertion_point(
    results: Seq<OperationResultView>,
    status_kind: Seq<char>,
    start: int,
) -> int
    decreases results.len() - start,
{
    if start < 0 || start >= results.len() {
        results.len() as int
    } else if !text_le(results[start].status_kind, status_kind) {
        start
    } else {
        insertion_point(results, status_kind, start + 1)
    }
}

/// The answers of a list, ordered by status kind. Answers of one status kind
/// stay in the order in which they came.
pub open spec fn ordered_results(results: Seq<OperationResultView>) -> Seq<OperationResultView>
    decreases results.len(),
{
    if results.len() == 0 {
        Seq::empty()
    } else {
        let before = ordered_results(results.drop_last());
        before.insert(insertion_point(before, results.last().status_kind, 0), results.last())
    }
}

/// The parameters of an operation: those that its path declares for all
/// operations, then its own, each followed to the node that it stands for.
pub open spec fn request_parameters(
    cache: CacheView,
    path_location: LocationView,
    path_node: NodeView,
    operation_location: LocationView,
    operation_node: NodeView,
) -> Result<Seq<ResolvedView>, DocumentError> {
    match resolved_from(cache, path_location, flattened(path_node.items_under("parameters"@)), 0) {
        Err(error) => Err(error),
        Ok(shared) => match resolved_from(
            cache,
            operation_location,
            flattened(operation_node.items_under("parameters"@)),
            0,
        ) {
            Err(error) => Err(error),
            Ok(own) => Ok(shared + own),
        },
    }
}

/// The models of the parameters from `start` on that are carried in one
/// part of the request.
pub open spec fn bucket_from(
    parameters: Seq<ResolvedView>,
    place: Seq<char>,
    start: int,
) -> Result<Seq<ParameterView>, DocumentError>
    decreases parameters.len() - start,
{
    if start < 0 || start >= parameters.len() {
        Ok(Seq::empty())
    } else if parameters[start].node.text_member("in"@) != Some(place) {
        bucket_from(parameters, place, start + 1)
    } else {
        match request_parameter_model(parameters[start].location, parameters[start].node) {
            Err(error) => Err(error),
            Ok(first) => match bucket_from(parameters, place, start + 1) {
                Err(error) => Err(error),
                Ok(rest) => Ok(seq![first] + rest),
            },
        }
    }
}

/// The model of an operation.
#[verifier::opaque]
pub open spec fn operation_model(
    cache: CacheView,
    path_location: LocationView,
    path_node: NodeView,
    operation_location: LocationView,
    operation_node: NodeView,
    method: Method,
) -> Result<OperationView, DocumentError> {
    match request_parameters(cache, path_location, path_node, operation_location, operation_node) {
        Err(error) => Err(error),
        Ok(parameters) => match bucket_from(parameters, "cookie"@, 0) {
            Err(error) => Err(error),
            Ok(cookie_parameters) => match bucket_from(parameters, "header"@, 0) {
                Err(error) => Err(error),
                Ok(header_parameters) => match bucket_from(parameters, "path"@, 0) {
                    Err(error) => Err(error),
                    Ok(path_parameters) => match bucket_from(parameters, "query"@, 0) {
                        Err(error) => Err(error),
                        Ok(query_parameters) => match result_models_from(
                            cache,
                            operation_location,
                            flattened(operation_node.members_under("responses"@)),
                            0,
                        ) {
                            Err(error) => Err(error),
                            Ok(results) => match operation_node.text_member("name"@) {
                                None => Err(DocumentError::MissingName),
                                Some(name) => Ok(
                                    OperationView {
                                        location: operation_location,
                                        method,
                                        name,
                                        summary: operation_node.text_member("summary"@),
                                        description: operation_node.text_member("description"@),
                                        deprecated: operation_node.truth_member("deprecated"@)
                                            == Some(true),
                                        mockable: false,
                                        authentication_requirements: 0,
                                        query_parameters,
                                        header_parameters,
                                        path_parameters,
                                        cookie_parameters,
                                        bodies: body_models(
                                            operation_location,
                                            flattened(request_bodies(operation_node)),
                                        ),
                                        operation_results: ordered_results(results),
                                    },
                                ),
                            },
                        },
                    },
                },
            },
        },
    }
}

/// The models of the operations of a path from `start` on.
pub open spec fn operation_models_from(
    cache: CacheView,
    path_location: LocationView,
    path_node: NodeView,
    entries: Seq<EntryView>,
    start: int,
) -> Result<Seq<OperationView>, DocumentError>
    decreases entries.len() - start,
{
    if start < 0 || start >= entries.len() {
        Ok(Seq::empty())
    } else {
        match method_of(key_of(entries[start].pointer)) {
            None => operation_models_from(cache, path_location, path_node, entries, start + 1),
            Some(method) => match operation_model(
                cache,
                path_location,
                path_node,
                pushed(path_location, entries[start].pointer),
                entries[start].node,
                method,
            ) {
                Err(error) => Err(error),
                Ok(first) => match operation_models_from(
                    cache,
                    path_location,
                    path_node,
                    entries,
                    start + 1,
                ) {
                    Err(error) => Err(error),
                    Ok(rest) => Ok(seq![first] + rest),
                },
            },
        }
    }
}

/// The model of a path.
#[verifier::opaque]
pub open spec fn path_model(
    cache: CacheView,
    location: LocationView,
    node: NodeView,
    id: usize,
    pattern: Seq<char>,
) -> Result<PathView, DocumentError> {
    match operation_models_from(cache, location, node, flattened(path_operations(node)), 0) {
        Err(error) => Err(error),
        Ok(operations) => Ok(PathView { id, location, pattern, operations }),
    }
}

/// The models of the paths of an API from `start` on. The paths are numbered
/// from one on, in the order of the document.
pub open spec fn path_models_from(
    cache: CacheView,
    location: LocationView,
    entries: Seq<EntryView>,
    start: int,
) -> Result<Seq<PathView>, DocumentError>
    decreases entries.len() - start,
{
    if start < 0 || start >= entries.len() {
        Ok(Seq::empty())
    } else {
        match dereferenced(cache, pushed(location, entries[start].pointer), entries[start].node) {
            Err(error) => Err(error),
            Ok(resolved) => match path_model(
                cache,
                resolved.location,
                resolved.node,
                (start + 1) as usize,
                key_of(entries[start].pointer),
            ) {
                Err(error) => Err(error),
                Ok(first) => match path_models_from(cache, location, entries, start + 1) {
                    Err(error) => Err(error),
                    Ok(rest) => Ok(seq![first] + rest),
                },
            },
        }
    }
}

/// The model of the API that a node declares.
pub open spec fn api_model(
    cache: CacheView,
    location: LocationView,
    node: NodeView,
) -> Result<ApiView, DocumentError> {
    match path_models_from(cache, location, flattened(node.members_under("paths"@)), 0) {
        Err(error) => Err(error),
        Ok(paths) => Ok(ApiView { location, paths, authentication: 0 }),
    }
}

/// The model of the API of the document at a location.
pub open spec fn document_api_model(
    cache: CacheView,
    location: LocationView,
) -> Result<ApiView, DocumentError> {
    if cache.contains_key(location) {
        api_model(cache, location, cache[location])
    } else {
        Err(DocumentError::NodeNotFound)
    }
}

/// What was made so far, followed by what is still to come, unless that
/// fails.
pub open spec fn continued<T>(
    done: Seq<T>,
    rest: Result<Seq<T>, DocumentError>,
) -> Result<Seq<T>, DocumentError> {
    match rest {
        Ok(rest) => Ok(done + rest),
        Err(error) => Err(error),
    }
}

/// With nothing made so far, all is still to come.
pub proof fn lemma_continued_start<T>(rest: Result<Seq<T>, DocumentError>)
    ensures
        continued(Seq::empty(), rest) == rest,
{
    if rest is Ok {
        assert(Seq::<T>::empty() + rest->Ok_0 =~= rest->Ok_0);
    }
}

/// One more item made is one item less to come.
pub proof fn lemma_continued_step<T>(done: Seq<T>, first: T, rest: Result<Seq<T>, DocumentError>)
    ensures
        continued(done, continued(seq![first], rest)) == continued(done.push(first), rest),
{
    if rest is Ok {
        assert(done + (seq![first] + rest->Ok_0) =~= done.push(first) + rest->Ok_0);
    }
}

/// With nothing to come, what was made is all.
pub proof fn lemma_continued_end<T>(done: Seq<T>)
    ensures
        continued(done, Ok(Seq::empty())) == Ok::<Seq<T>, DocumentError>(done),
{
    assert(done + Seq::<T>::empty() =~= done);
}

/// The children of a node, none where they are missing.
pub fn children_or_none<'a>(children: Option<Vec<Child<'a>>>) -> (entries: Vec<Child<'a>>)
    ensures
        entries.deep_view() == flattened(
            match children {
                Some(children) => Some(children.deep_view()),
                None => None,
            },
        ),
{
    match children {
        Some(children) => children,
        None => {
            let entries: Vec<Child<'a>> = Vec::new();
            assert(entries.deep_view() =~= Seq::<EntryView>::empty());
            entries
        },
    }
}

/// One list after another, unless one of them fails; the first failure
/// decides.
pub open spec fn chained<T>(
    first: Result<Seq<T>, DocumentError>,
    second: Result<Seq<T>, DocumentError>,
) -> Result<Seq<T>, DocumentError> {
    match first {
        Err(error) => Err(error),
        Ok(first) => continued(first, second),
    }
}

/// The locations that the references among the entries from `start` on
/// name, each read at the place where it stands.
pub open spec fn reference_targets_from(
    base: LocationView,
    entries: Seq<EntryView>,
    start: int,
) -> Result<Seq<LocationView>, DocumentError>
    decreases entries.len() - start,
{
    if start < 0 || start >= entries.len() {
        Ok(Seq::empty())
    } else {
        match reference_of(entries[start].node) {
            None => reference_targets_from(base, entries, start + 1),
            Some(reference) => match reference_target(
                pushed(base, entries[start].pointer),
                reference,
            ) {
                Err(error) => Err(error),
                Ok(target) => continued(seq![target], reference_targets_from(base, entries, start + 1)),
            },
        }
    }
}

/// The locations that an answer of an operation refers to: those of its
/// headers that are references.
pub open spec fn operation_result_references(
    location: LocationView,
    node: NodeView,
) -> Result<Seq<LocationView>, DocumentError> {
    reference_targets_from(location, flattened(node.members_under("headers"@)), 0)
}

/// The locations that the answers from `start` on refer to, leaving out the
/// answers that are references themselves.
pub open spec fn nested_result_references_from(
    base: LocationView,
    entries: Seq<EntryView>,
    start: int,
) -> Result<Seq<LocationView>, DocumentError>
    decreases entries.len() - start,
{
    if start < 0 || start >= entries.len() {
        Ok(Seq::empty())
    } else if reference_of(entries[start].node) is Some {
        nested_result_references_from(base, entries, start + 1)
    } else {
        chained(
            operation_result_references(pushed(base, entries[start].pointer), entries[start].node),
            nested_result_references_from(base, entries, start + 1),
        )
    }
}

/// The locations that an operation refers to: the answers that are
/// references, what the other answers refer to, and the parameters that are
/// references.
pub open spec fn operation_references(
    location: LocationView,
    node: NodeView,
) -> Result<Seq<LocationView>, DocumentError> {
    chained(
        chained(
            reference_targets_from(location, flattened(node.members_under("responses"@)), 0),
            nested_result_references_from(location, flattened(node.members_under("responses"@)), 0),
        ),
        reference_targets_from(location, flattened(node.items_under("parameters"@)), 0),
    )
}

/// The locations that the operations from `start` on refer to.
pub open spec fn nested_operation_references_from(
    base: LocationView,
    entries: Seq<EntryView>,
    start: int,
) -> Result<Seq<LocationView>, DocumentError>
    decreases entries.len() - start,
{
    if start < 0 || start >= entries.len() {
        Ok(Seq::empty())
    } else {
        chained(
            operation_references(pushed(base, entries[start].pointer), entries[start].node),
            nested_operation_references_from(base, entries, start + 1),
        )
    }
}

/// The locations that a path refers to: what its operations refer to, and
/// the parameters that are references.
pub open spec fn path_references(
    location: LocationView,
    node: NodeView,
) -> Result<Seq<LocationView>, DocumentError> {
    chained(
        nested_operation_references_from(location, flattened(path_operations(node)), 0),
        reference_targets_from(location, flattened(node.items_under("parameters"@)), 0),
    )
}

/// The locations that the paths from `start` on refer to, leaving out the
/// paths that are references themselves.
pub open spec fn nested_path_references_from(
    base: LocationView,
    entries: Seq<EntryView>,
    start: int,
) -> Result<Seq<LocationView>, DocumentError>
    decreases entries.len() - start,
{
    if start < 0 || start >= entries.len() {
        Ok(Seq::empty())
    } else if reference_of(entries[start].node) is Some {
        nested_path_references_from(base, entries, start + 1)
    } else {
        chained(
            path_references(pushed(base, entries[start].pointer), entries[start].node),
            nested_path_references_from(base, entries, start + 1),
        )
    }
}

/// The locations that an API refers to: the paths that are references, then
/// what the other paths refer to.
pub open spec fn api_references(
    location: LocationView,
    node: NodeView,
) -> Result<Seq<LocationView>, DocumentError> {
    chained(
        reference_targets_from(location, flattened(node.members_under("paths"@)), 0),
        nested_path_references_from(location, flattened(node.members_under("paths"@)), 0),
    )
}

/// The locations that the document at a location refers to.
pub open spec fn document_references(
    cache: CacheView,
    location: LocationView,
) -> Result<Seq<LocationView>, DocumentError> {
    if cache.contains_key(location) {
        api_references(location, cache[location])
    } else {
        Err(DocumentError::NodeNotFound)
    }
}

/// The location of the schema of a node, as a list of one or none.
pub open spec fn schema_locations_of(location: LocationView, node: NodeView) -> Seq<LocationView> {
    match schema_id_of(location, node) {
        Some(schema) => seq![schema],
        None => Seq::empty(),
    }
}

/// The locations of the schemas of the entries from `start` on. Where
/// `all` is not set, entries that are references are left out.
pub open spec fn entry_schema_locations_from(
    base: LocationView,
    entries: Seq<EntryView>,
    all: bool,
    start: int,
) -> Seq<LocationView>
    decreases entries.len() - start,
{
    if start < 0 || start >= entries.len() {
        Seq::empty()
    } else if !all && reference_of(entries[start].node) is Some {
        entry_schema_locations_from(base, entries, all, start + 1)
    } else {
        schema_locations_of(pushed(base, entries[start].pointer), entries[start].node)
            + entry_schema_locations_from(base, entries, all, start + 1)
    }
}

/// The locations of the schemas of an answer: those of its headers, then
/// those of its bodies.
pub open spec fn operation_result_schema_locations(
    location: LocationView,
    node: NodeView,
) -> Seq<LocationView> {
    entry_schema_locations_from(location, flattened(node.members_under("headers"@)), false, 0)
        + entry_schema_locations_from(location, flattened(node.members_under("content"@)), true, 0)
}

/// The locations of the schemas of the answers from `start` on, leaving out
/// the answers that are references.
pub open spec fn result_schema_locations_from(
    base: LocationView,
    entries: Seq<EntryView>,
    start: int,
) -> Seq<LocationView>
    decreases entries.len() - start,
{
    if start < 0 || start >= entries.len() {
        Seq::empty()
    } else if reference_of(entries[start].node) is Some {
        result_schema_locations_from(base, entries, start + 1)
    } else {
        operation_result_schema_locations(
            pushed(base, entries[start].pointer),
            entries[start].node,
        ) + result_schema_locations_from(base, entries, start + 1)
    }
}

/// The locations of the schemas of an operation: those of its parameters,
/// then those of its answers.
pub open spec fn operation_schema_locations(
    location: LocationView,
    node: NodeView,
) -> Seq<LocationView> {
    entry_schema_locations_from(location, flattened(node.items_under("parameters"@)), false, 0)
        + result_schema_locations_from(location, flattened(node.members_under("responses"@)), 0)
}

/// The locations of the schemas of the operations from `start` on.
pub open spec fn operations_schema_locations_from(
    base: LocationView,
    entries: Seq<EntryView>,
    start: int,
) -> Seq<LocationView>
    decreases entries.len() - start,
{
    if start < 0 || start >= entries.len() {
        Seq::empty()
    } else {
        operation_schema_locations(pushed(base, entries[start].pointer), entries[start].node)
            + operations_schema_locations_from(base, entries, start + 1)
    }
}

/// The locations of the schemas of a path: those of its parameters, then
/// those of its operations.
pub open spec fn path_schema_locations(
    location: LocationView,
    node: NodeView,
) -> Seq<LocationView> {
    entry_schema_locations_from(location, flattened(node.items_under("parameters"@)), false, 0)
        + operations_schema_locations_from(location, flattened(path_operations(node)), 0)
}

/// The locations of the schemas of the paths from `start` on, leaving out
/// the paths that are references.
pub open spec fn paths_schema_locations_from(
    base: LocationView,
    entries: Seq<EntryView>,
    start: int,
) -> Seq<LocationView>
    decreases entries.len() - start,
{
    if start < 0 || start >= entries.len() {
        Seq::empty()
    } else if reference_of(entries[start].node) is Some {
        paths_schema_locations_from(base, entries, start + 1)
    } else {
        path_schema_locations(pushed(base, entries[start].pointer), entries[start].node)
            + paths_schema_locations_from(base, entries, start + 1)
    }
}

/// The locations of the schemas of an API.
pub open spec fn api_schema_locations(location: LocationView, node: NodeView) -> Seq<LocationView> {
    paths_schema_locations_from(location, flattened(node.members_under("paths"@)), 0)
}

/// The locations of the schemas of the document at a location.
pub open spec fn document_schema_locations(
    cache: CacheView,
    location: LocationView,
) -> Result<Seq<LocationView>, DocumentError> {
    if cache.contains_key(location) {
        Ok(api_schema_locations(location, cache[location]))
    } else {
        Err(DocumentError::NodeNotFound)
    }
}

/// Many more items made are as many less to come.
pub proof fn lemma_continued_chunk<T>(
    done: Seq<T>,
    chunk: Seq<T>,
    rest: Result<Seq<T>, DocumentError>,
)
    ensures
        continued(done, continued(chunk, rest)) == continued(done + chunk, rest),
{
    if rest is Ok {
        assert(done + (chunk + rest->Ok_0) =~= (done + chunk) + rest->Ok_0);
    }
}

/// The reader of one document of version 3.0. It knows where its document
/// was retrieved from, and finds the nodes in the cache that it is handed.
pub struct Document {
    retrieval_location: Location,
}

impl Document {
    /// The location that the document was retrieved from.
    pub closed spec fn location(&self) -> LocationView {
        self.retrieval_location@
    }

    /// The reader of the document at a location.
    pub fn new(retrieval_location: Location) -> (document: Self)
        ensures
            document.location() == retrieval_location@,
    {
        Document { retrieval_location }
    }

    /// The schema that a schema of the document follows where it names none
    /// itself.
    pub fn get_default_schema_id(&self) -> (schema_id: String)
        ensures
            schema_id@ == "https://spec.openapis.org/oas/3.0/schema/2021-09-28#/definitions/Schema"@,
    {
        "https://spec.openapis.org/oas/3.0/schema/2021-09-28#/definitions/Schema".to_owned()
    }

    /// The node that stands at a location, or the node that it refers to.
    pub fn dereference<'a>(
        &self,
        cache: &'a NodeCache,
        location: Location,
        node: &'a Node,
    ) -> (result: Result<Resolved<'a>, DocumentError>)
        requires
            cache.wf(),
        ensures
            match dereferenced(cache@, location@, node@) {
                Ok(resolved) => result matches Ok(found) && found.deep_view() == resolved,
                Err(error) => result matches Err(raised) && raised == error,
            },
    {
        proof {
            reveal(dereferenced);
        }
        match NodeOrReference::new(node) {
            NodeOrReference::Node(own) => Ok(Resolved { location, node: own }),
            NodeOrReference::Reference(reference) => match Self::resolve_reference(
                &location,
                reference,
            ) {
                Err(error) => Err(error),
                Ok(target) => match cache.get_node(&target) {
                    None => Err(DocumentError::NodeNotFound),
                    Some(found) => Ok(Resolved { location: target, node: found }),
                },
            },
        }
    }

    /// The location that a reference names when it is read at a location.
    pub fn resolve_reference(
        location: &Location,
        reference: &str,
    ) -> (result: Result<Location, DocumentError>)
        ensures
            agrees(result, reference_target(location@, reference@)),
    {
        match Location::parse(reference) {
            Err(_) => Err(DocumentError::InvalidReference),
            Ok(other) => match location.try_join(&other) {
                None => Err(DocumentError::InvalidReference),
                Some(target) => Ok(target),
            },
        }
    }

    /// The location of the schema of a node that has one.
    fn schema_id(
        location: &Location,
        pointer: Option<Vec<String>>,
    ) -> (schema_id: Option<Location>)
        ensures
            match pointer {
                Some(pointer) => schema_id matches Some(found) && found@ == pushed(
                    location@,
                    pointer.deep_view(),
                ),
                None => schema_id is None,
            },
    {
        match pointer {
            Some(pointer) => Some(location.push_pointer(pointer)),
            None => None,
        }
    }

    /// The model of a body.
    pub fn make_body_model(
        &self,
        body_location: Location,
        body_node: Body<'_>,
        content_type: String,
    ) -> (result: Result<models::Body, DocumentError>)
        ensures
            result matches Ok(body) && body.deep_view() == body_model(
                body_location@,
                body_node@,
                content_type@,
            ),
    {
        Ok(Self::body(body_location, body_node, content_type))
    }

    /// The model of a body.
    fn body(location: Location, node: Body<'_>, content_type: String) -> (body: models::Body)
        ensures
            body.deep_view() == body_model(location@, node@, content_type@),
    {
        let schema_id = Self::schema_id(&location, node.schema_pointer());
        models::Body { location, content_type, mockable: false, schema_id }
    }

    /// The model of a parameter of a request.
    pub fn make_parameter_model_request(
        &self,
        parameter_location: Location,
        parameter_node: Parameter<'_>,
    ) -> (result: Result<models::Parameter, DocumentError>)
        ensures
            match request_parameter_model(parameter_location@, parameter_node@) {
                Ok(model) => result matches Ok(parameter) && parameter.deep_view() == model,
                Err(error) => result matches Err(raised) && raised == error,
            },
    {
        let schema_id = Self::schema_id(&parameter_location, parameter_node.schema_pointer());
        let name = match parameter_node.name() {
            Some(name) => name.to_owned(),
            None => {
                return Err(DocumentError::MissingName);
            },
        };
        let required = match parameter_node.required() {
            Some(required) => required,
            None => false,
        };
        Ok(models::Parameter { location: parameter_location, name, required, mockable: false, schema_id })
    }

    /// The model of a header of a response.
    pub fn make_parameter_model_response(
        &self,
        header_location: Location,
        header_node: ResponseHeader<'_>,
        name: String,
    ) -> (result: Result<models::Parameter, DocumentError>)
        ensures
            result matches Ok(parameter) && parameter.deep_view() == response_header_model(
                header_location@,
                header_node@,
                name@,
            ),
    {
        Ok(Self::response_header(header_location, header_node, name))
    }

    /// The model of a header of a response.
    fn response_header(
        location: Location,
        node: ResponseHeader<'_>,
        name: String,
    ) -> (parameter: models::Parameter)
        ensures
            parameter.deep_view() == response_header_model(location@, node@, name@),
    {
        let schema_id = Self::schema_id(&location, node.schema_pointer());
        let required = match node.required() {
            Some(required) => required,
            None => false,
        };
        models::Parameter { location, name, required, mockable: false, schema_id }
    }

    /// The entries of a list, each followed to the node that it stands for.
    fn resolve_entries<'a>(
        &self,
        cache: &'a NodeCache,
        base: &Location,
        entries: &Vec<Child<'a>>,
    ) -> (result: Result<Vec<Resolved<'a>>, DocumentError>)
        requires
            cache.wf(),
        ensures
            agrees(result, resolved_from(cache@, base@, entries.deep_view(), 0)),
            result matches Ok(resolved) ==> resolved.len() == entries.len(),
    {
        let mut resolved: Vec<Resolved<'a>> = Vec::new();
        let mut index: usize = 0;
        proof {
            lemma_continued_start(resolved_from(cache@, base@, entries.deep_view(), 0));
            assert(resolved.deep_view() =~= Seq::<ResolvedView>::empty());
        }
        while index < entries.len()
            invariant
                cache.wf(),
                index <= entries.len(),
                resolved.len() == index,
                resolved_from(cache@, base@, entries.deep_view(), 0) == continued(
                    resolved.deep_view(),
                    resolved_from(cache@, base@, entries.deep_view(), index as int),
                ),
            decreases entries.len() - index,
        {
            let ghost done = resolved.deep_view();
            let entry = &entries[index];
            assert(entry.deep_view() == entries.deep_view()[index as int]);
            let location = base.push_pointer(copy_pointer(&entry.pointer));
            let first = match self.dereference(cache, location, entry.node) {
                Ok(first) => first,
                Err(error) => {
                    return Err(error);
                },
            };
            proof {
                lemma_continued_step(
                    done,
                    first.deep_view(),
                    resolved_from(cache@, base@, entries.deep_view(), index + 1),
                );
            }
            resolved.push(first);
            assert(resolved.deep_view() =~= done.push(first.deep_view()));
            index += 1;
        }
        proof {
            lemma_continued_end(resolved.deep_view());
        }
        Ok(resolved)
    }

    /// The models of the headers of a response.
    fn make_header_models<'a>(
        &self,
        cache: &'a NodeCache,
        location: &Location,
        entries: &Vec<Child<'a>>,
    ) -> (result: Result<Vec<models::Parameter>, DocumentError>)
        requires
            cache.wf(),
        ensures
            agrees(result, response_header_models(cache@, location@, entries.deep_view())),
    {
        let mut resolved = match self.resolve_entries(cache, location, entries) {
            Ok(resolved) => resolved,
            Err(error) => {
                return Err(error);
            },
        };
        let ghost all = resolved.deep_view();
        let ghost expected = response_header_models(cache@, location@, entries.deep_view())->Ok_0;
        // The headers are built from the last to the first, and turned
        // around at the end.
        let mut reversed: Vec<models::Parameter> = Vec::new();
        while resolved.len() > 0
            invariant
                all.len() == entries.len(),
                response_header_models(cache@, location@, entries.deep_view()) == Ok::<
                    Seq<ParameterView>,
                    DocumentError,
                >(expected),
                expected.len() == all.len(),
                forall|i: int|
                    0 <= i < all.len() ==> (#[trigger] expected[i]) == response_header_model(
                        all[i].location,
                        all[i].node,
                        key_of(entries.deep_view()[i].pointer),
                    ),
                resolved.len() + reversed.len() == all.len(),
                forall|i: int| 0 <= i < resolved.len() ==> (#[trigger] resolved.deep_view()[i]) == all[i],
                forall|i: int|
                    0 <= i < reversed.len() ==> (#[trigger] reversed.deep_view()[i]) == expected[all.len()
                        - 1 - i],
            decreases resolved.len(),
        {
            let ghost before = resolved.deep_view();
            let ghost made = reversed.deep_view();
            let index = resolved.len() - 1;
            let last = resolved.pop().unwrap();
            assert(last.deep_view() == before[index as int]);
            assert(resolved.deep_view() =~= before.drop_last());
            let entry = &entries[index];
            assert(entry.deep_view() == entries.deep_view()[index as int]);
            let name = last_segment(&entry.pointer);
            let header = Self::response_header(last.location, ResponseHeader::new(last.node), name);
            reversed.push(header);
            assert(reversed.deep_view() =~= made.push(header.deep_view()));
        }
        let headers = reverse_list(reversed);
        assert(headers.deep_view() =~= expected);
        Ok(headers)
    }

    /// The model of one answer of an operation.
    pub fn make_operation_result_model<'a>(
        &self,
        cache: &'a NodeCache,
        operation_result_location: Location,
        operation_result_node: OperationResult<'a>,
        status_kind: String,
    ) -> (result: Result<models::OperationResult, DocumentError>)
        requires
            cache.wf(),
        ensures
            agrees(
                result,
                operation_result_model(
                    cache@,
                    operation_result_location@,
                    operation_result_node@,
                    status_kind@,
                ),
            ),
    {
        proof {
            reveal(operation_result_model);
        }
        let headers = children_or_none(operation_result_node.response_headers());
        let header_parameters = match self.make_header_models(
            cache,
            &operation_result_location,
            &headers,
        ) {
            Ok(header_parameters) => header_parameters,
            Err(error) => {
                return Err(error);
            },
        };
        let bodies = self.make_body_models(
            &operation_result_location,
            children_or_none(operation_result_node.bodies()),
        );
        let description = match operation_result_node.description() {
            Some(text) => Some(text.to_owned()),
            None => None,
        };
        Ok(
            models::OperationResult {
                location: operation_result_location,
                description,
                status_kind,
                status_codes: Vec::new(),
                mockable: false,
                header_parameters,
                bodies,
            },
        )
    }

    /// The models of the answers of an operation, ordered by status kind.
    fn make_result_models<'a>(
        &self,
        cache: &'a NodeCache,
        location: &Location,
        entries: &Vec<Child<'a>>,
    ) -> (result: Result<Vec<models::OperationResult>, DocumentError>)
        requires
            cache.wf(),
        ensures
            match result_models_from(cache@, location@, entries.deep_view(), 0) {
                Ok(models) => result matches Ok(ordered) && ordered.deep_view() == ordered_results(
                    models,
                ),
                Err(error) => result matches Err(raised) && raised == error,
            },
    {
        let mut ordered: Vec<models::OperationResult> = Vec::new();
        let ghost mut made: Seq<OperationResultView> = Seq::empty();
        let mut index: usize = 0;
        proof {
            lemma_continued_start(result_models_from(cache@, location@, entries.deep_view(), 0));
            assert(ordered.deep_view() =~= Seq::<OperationResultView>::empty());
        }
        while index < entries.len()
            invariant
                cache.wf(),
                index <= entries.len(),
                ordered.deep_view() == ordered_results(made),
                result_models_from(cache@, location@, entries.deep_view(), 0) == continued(
                    made,
                    result_models_from(cache@, location@, entries.deep_view(), index as int),
                ),
            decreases entries.len() - index,
        {
            let entry = &entries[index];
            assert(entry.deep_view() == entries.deep_view()[index as int]);
            let place = location.push_pointer(copy_pointer(&entry.pointer));
            let resolved = match self.dereference(cache, place, entry.node) {
                Ok(resolved) => resolved,
                Err(error) => {
                    return Err(error);
                },
            };
            let status_kind = last_segment(&entry.pointer);
            let model = match self.make_operation_result_model(
                cache,
                resolved.location,
                OperationResult::new(resolved.node),
                status_kind,
            ) {
                Ok(model) => model,
                Err(error) => {
                    return Err(error);
                },
            };
            proof {
                lemma_continued_step(
                    made,
                    model.deep_view(),
                    result_models_from(cache@, location@, entries.deep_view(), index + 1),
                );
                assert(made.push(model.deep_view()).drop_last() =~= made);
                made = made.push(model.deep_view());
            }
            Self::place_result(&mut ordered, model);
            index += 1;
        }
        proof {
            lemma_continued_end(made);
        }
        Ok(ordered)
    }

    /// Puts an answer in its place among answers that are in order.
    fn place_result(ordered: &mut Vec<models::OperationResult>, model: models::OperationResult)
        ensures
            final(ordered).deep_view() == old(ordered).deep_view().insert(
                insertion_point(old(ordered).deep_view(), model.status_kind@, 0),
                model.deep_view(),
            ),
    {
        let ghost before = ordered.deep_view();
        let mut index: usize = 0;
        while index < ordered.len() && compare_text(
            ordered[index].status_kind.as_str(),
            model.status_kind.as_str(),
        )
            invariant
                index <= ordered.len(),
                before == ordered.deep_view(),
                insertion_point(before, model.status_kind@, 0) == insertion_point(
                    before,
                    model.status_kind@,
                    index as int,
                ),
            decreases ordered.len() - index,
        {
            index += 1;
        }
        ordered.insert(index, model);
        assert(ordered.deep_view() =~= before.insert(index as int, model.deep_view()));
    }

    /// The models of the parameters that are carried in one part of the
    /// request.
    fn make_bucket<'a>(
        &self,
        parameters: &Vec<Resolved<'a>>,
        place: &str,
    ) -> (result: Result<Vec<models::Parameter>, DocumentError>)
        ensures
            agrees(result, bucket_from(parameters.deep_view(), place@, 0)),
    {
        let mut bucket: Vec<models::Parameter> = Vec::new();
        let mut index: usize = 0;
        proof {
            lemma_continued_start(bucket_from(parameters.deep_view(), place@, 0));
            assert(bucket.deep_view() =~= Seq::<ParameterView>::empty());
        }
        while index < parameters.len()
            invariant
                index <= parameters.len(),
                bucket_from(parameters.deep_view(), place@, 0) == continued(
                    bucket.deep_view(),
                    bucket_from(parameters.deep_view(), place@, index as int),
                ),
            decreases parameters.len() - index,
        {
            let ghost done = bucket.deep_view();
            let parameter = &parameters[index];
            assert(parameter.deep_view() == parameters.deep_view()[index as int]);
            let node = Parameter::new(parameter.node);
            let carried = match node.place() {
                Some(found) => same_text(found, place),
                None => false,
            };
            if carried {
                let model = match self.make_parameter_model_request(parameter.location.clone(), node) {
                    Ok(model) => model,
                    Err(error) => {
                        return Err(error);
                    },
                };
                proof {
                    lemma_continued_step(
                        done,
                        model.deep_view(),
                        bucket_from(parameters.deep_view(), place@, index + 1),
                    );
                }
                bucket.push(model);
                assert(bucket.deep_view() =~= done.push(model.deep_view()));
            }
            index += 1;
        }
        proof {
            lemma_continued_end(bucket.deep_view());
        }
        Ok(bucket)
    }

    /// The model of an operation.
    pub fn make_operation_model<'a>(
        &self,
        cache: &'a NodeCache,
        path_location: &Location,
        path_node: Path<'a>,
        operation_location: Location,
        operation_node: Operation<'a>,
        method: Method,
    ) -> (result: Result<models::Operation, DocumentError>)
        requires
            cache.wf(),
        ensures
            agrees(
                result,
                operation_model(
                    cache@,
                    path_location@,
                    path_node@,
                    operation_location@,
                    operation_node@,
                    method,
                ),
            ),
    {
        proof {
            reveal(operation_model);
        }
        let shared_entries = children_or_none(path_node.request_parameters());
        let mut parameters = match self.resolve_entries(cache, path_location, &shared_entries) {
            Ok(shared) => shared,
            Err(error) => {
                return Err(error);
            },
        };
        let own_entries = children_or_none(operation_node.request_parameters());
        let mut own = match self.resolve_entries(cache, &operation_location, &own_entries) {
            Ok(own) => own,
            Err(error) => {
                return Err(error);
            },
        };
        let ghost shared_view = parameters.deep_view();
        let ghost own_view = own.deep_view();
        parameters.append(&mut own);
        assert(parameters.deep_view() =~= shared_view + own_view);
        let cookie_parameters = match self.make_bucket(&parameters, "cookie") {
            Ok(bucket) => bucket,
            Err(error) => {
                return Err(error);
            },
        };
        let header_parameters = match self.make_bucket(&parameters, "header") {
            Ok(bucket) => bucket,
            Err(error) => {
                return Err(error);
            },
        };
        let path_parameters = match self.make_bucket(&parameters, "path") {
            Ok(bucket) => bucket,
            Err(error) => {
                return Err(error);
            },
        };
        let query_parameters = match self.make_bucket(&parameters, "query") {
            Ok(bucket) => bucket,
            Err(error) => {
                return Err(error);
            },
        };
        let bodies = self.make_body_models(
            &operation_location,
            children_or_none(operation_node.bodies()),
        );
        let result_entries = children_or_none(operation_node.operation_results());
        let operation_results = match self.make_result_models(
            cache,
            &operation_location,
            &result_entries,
        ) {
            Ok(results) => results,
            Err(error) => {
                return Err(error);
            },
        };
        let name = match operation_node.name() {
            Some(name) => name.to_owned(),
            None => {
                return Err(DocumentError::MissingName);
            },
        };
        let summary = match operation_node.summary() {
            Some(text) => Some(text.to_owned()),
            None => None,
        };
        let description = match operation_node.description() {
            Some(text) => Some(text.to_owned()),
            None => None,
        };
        let deprecated = match operation_node.deprecated() {
            Some(deprecated) => deprecated,
            None => false,
        };
        Ok(
            models::Operation {
                location: operation_location,
                method,
                name,
                summary,
                description,
                deprecated,
                mockable: false,
                authentication_requirements: Vec::new(),
                query_parameters,
                header_parameters,
                path_parameters,
                cookie_parameters,
                bodies,
                operation_results,
            },
        )
    }

    /// The model of a path.
    pub fn make_path_model<'a>(
        &self,
        cache: &'a NodeCache,
        path_location: Location,
        path_node: Path<'a>,
        id: usize,
        pattern: String,
    ) -> (result: Result<models::Path, DocumentError>)
        requires
            cache.wf(),
        ensures
            agrees(result, path_model(cache@, path_location@, path_node@, id, pattern@)),
    {
        let entries = children_or_none(path_node.operations());
        let mut operations: Vec<models::Operation> = Vec::new();
        let mut index: usize = 0;
        let ghost expected = |start: int|
            operation_models_from(cache@, path_location@, path_node@, entries.deep_view(), start);
        proof {
            reveal(path_model);
            lemma_continued_start(expected(0));
            assert(operations.deep_view() =~= Seq::<OperationView>::empty());
        }
        while index < entries.len()
            invariant
                cache.wf(),
                index <= entries.len(),
                forall|start: int|
                    #[trigger] expected(start) == operation_models_from(
                        cache@,
                        path_location@,
                        path_node@,
                        entries.deep_view(),
                        start,
                    ),
                expected(0) == continued(operations.deep_view(), expected(index as int)),
                path_model(cache@, path_location@, path_node@, id, pattern@) == (match expected(0) {
                    Err(error) => Err(error),
                    Ok(operations) => Ok(
                        PathView { id, location: path_location@, pattern: pattern@, operations },
                    ),
                }),
            decreases entries.len() - index,
        {
            let ghost done = operations.deep_view();
            let entry = &entries[index];
            assert(entry.deep_view() == entries.deep_view()[index as int]);
            let key = last_segment(&entry.pointer);
            match Method::from_key(key.as_str()) {
                None => {},
                Some(method) => {
                    let location = path_location.push_pointer(copy_pointer(&entry.pointer));
                    let model = match self.make_operation_model(
                        cache,
                        &path_location,
                        path_node,
                        location,
                        Operation::new(entry.node),
                        method,
                    ) {
                        Ok(model) => model,
                        Err(error) => {
                            return Err(error);
                        },
                    };
                    proof {
                        lemma_continued_step(done, model.deep_view(), expected(index + 1));
                    }
                    operations.push(model);
                    assert(operations.deep_view() =~= done.push(model.deep_view()));
                },
            }
            index += 1;
        }
        proof {
            lemma_continued_end(operations.deep_view());
        }
        Ok(models::Path { id, location: path_location, pattern, operations })
    }

    /// The model of the API that a node declares.
    pub fn make_api_model<'a>(
        &self,
        cache: &'a NodeCache,
        api_location: Location,
        api_node: Api<'a>,
    ) -> (result: Result<models::Api, DocumentError>)
        requires
            cache.wf(),
        ensures
            agrees(result, api_model(cache@, api_location@, api_node@)),
    {
        let entries = children_or_none(api_node.paths());
        let mut paths: Vec<models::Path> = Vec::new();
        let mut index: usize = 0;
        proof {
            lemma_continued_start(path_models_from(cache@, api_location@, entries.deep_view(), 0));
            assert(paths.deep_view() =~= Seq::<PathView>::empty());
        }
        while index < entries.len()
            invariant
                cache.wf(),
                index <= entries.len(),
                path_models_from(cache@, api_location@, entries.deep_view(), 0) == continued(
                    paths.deep_view(),
                    path_models_from(cache@, api_location@, entries.deep_view(), index as int),
                ),
                entries.deep_view() == flattened(api_node@.members_under("paths"@)),
            decreases entries.len() - index,
        {
            let ghost done = paths.deep_view();
            let entry = &entries[index];
            assert(entry.deep_view() == entries.deep_view()[index as int]);
            let place = api_location.push_pointer(copy_pointer(&entry.pointer));
            let resolved = match self.dereference(cache, place, entry.node) {
                Ok(resolved) => resolved,
                Err(error) => {
                    return Err(error);
                },
            };
            let pattern = last_segment(&entry.pointer);
            let model = match self.make_path_model(
                cache,
                resolved.location,
                Path::new(resolved.node),
                index + 1,
                pattern,
            ) {
                Ok(model) => model,
                Err(error) => {
                    return Err(error);
                },
            };
            proof {
                lemma_continued_step(
                    done,
                    model.deep_view(),
                    path_models_from(cache@, api_location@, entries.deep_view(), index + 1),
                );
            }
            paths.push(model);
            assert(paths.deep_view() =~= done.push(model.deep_view()));
            index += 1;
        }
        proof {
            lemma_continued_end(paths.deep_view());
        }
        Ok(models::Api { location: api_location, paths, authentication: Vec::new() })
    }

    /// The locations that the references among the entries name, each read
    /// at the place where it stands.
    pub fn get_referenced_locations_from_reference_entries(
        location: &Location,
        entries: &Vec<Child<'_>>,
    ) -> (result: Result<Vec<Location>, DocumentError>)
        ensures
            agrees(result, reference_targets_from(location@, entries.deep_view(), 0)),
    {
        let mut found: Vec<Location> = Vec::new();
        let mut index: usize = 0;
        proof {
            lemma_continued_start(reference_targets_from(location@, entries.deep_view(), 0));
            assert(found.deep_view() =~= Seq::<LocationView>::empty());
        }
        while index < entries.len()
            invariant
                index <= entries.len(),
                reference_targets_from(location@, entries.deep_view(), 0) == continued(
                    found.deep_view(),
                    reference_targets_from(location@, entries.deep_view(), index as int),
                ),
            decreases entries.len() - index,
        {
            let ghost done = found.deep_view();
            let entry = &entries[index];
            assert(entry.deep_view() == entries.deep_view()[index as int]);
            match NodeOrReference::new(entry.node) {
                NodeOrReference::Node(_) => {},
                NodeOrReference::Reference(reference) => {
                    let place = location.push_pointer(copy_pointer(&entry.pointer));
                    let target = match Self::resolve_reference(&place, reference) {
                        Ok(target) => target,
                        Err(error) => {
                            return Err(error);
                        },
                    };
                    proof {
                        lemma_continued_step(
                            done,
                            target@,
                            reference_targets_from(location@, entries.deep_view(), index + 1),
                        );
                    }
                    found.push(target);
                    assert(found.deep_view() =~= done.push(target@));
                },
            }
            index += 1;
        }
        proof {
            lemma_continued_end(found.deep_view());
        }
        Ok(found)
    }

    /// The locations that an answer of an operation refers to.
    pub fn get_referenced_locations_from_operation_result(
        &self,
        location: &Location,
        node: OperationResult<'_>,
    ) -> (result: Result<Vec<Location>, DocumentError>)
        ensures
            agrees(result, operation_result_references(location@, node@)),
    {
        let mut found = match Self::get_referenced_locations_from_reference_entries(
            location,
            &children_or_none(node.response_headers()),
        ) {
            Ok(found) => found,
            Err(error) => {
                return Err(error);
            },
        };
        Ok(found)
    }

    /// What the answers refer to that are no references themselves.
    fn nested_result_references(
        &self,
        location: &Location,
        entries: &Vec<Child<'_>>,
    ) -> (result: Result<Vec<Location>, DocumentError>)
        ensures
            agrees(result, nested_result_references_from(location@, entries.deep_view(), 0)),
    {
        let mut found: Vec<Location> = Vec::new();
        let mut index: usize = 0;
        proof {
            lemma_continued_start(nested_result_references_from(location@, entries.deep_view(), 0));
            assert(found.deep_view() =~= Seq::<LocationView>::empty());
        }
        while index < entries.len()
            invariant
                index <= entries.len(),
                nested_result_references_from(location@, entries.deep_view(), 0) == continued(
                    found.deep_view(),
                    nested_result_references_from(location@, entries.deep_view(), index as int),
                ),
            decreases entries.len() - index,
        {
            let ghost done = found.deep_view();
            let entry = &entries[index];
            assert(entry.deep_view() == entries.deep_view()[index as int]);
            match NodeOrReference::new(entry.node) {
                NodeOrReference::Reference(_) => {},
                NodeOrReference::Node(own) => {
                    let place = location.push_pointer(copy_pointer(&entry.pointer));
                    let mut chunk = match self.get_referenced_locations_from_operation_result(&place, OperationResult::new(own)) {
                        Ok(chunk) => chunk,
                        Err(error) => {
                            return Err(error);
                        },
                    };
                    proof {
                        lemma_continued_chunk(
                            done,
                            chunk.deep_view(),
                            nested_result_references_from(location@, entries.deep_view(), index + 1),
                        );
                    }
                    let ghost added = chunk.deep_view();
                    found.append(&mut chunk);
                    assert(found.deep_view() =~= done + added);
                },
            }
            index += 1;
        }
        proof {
            lemma_continued_end(found.deep_view());
        }
        Ok(found)
    }

    /// The locations that an operation refers to.
    pub fn get_referenced_locations_from_operation(
        &self,
        location: &Location,
        node: Operation<'_>,
    ) -> (result: Result<Vec<Location>, DocumentError>)
        ensures
            agrees(result, operation_references(location@, node@)),
    {
        let mut found = match Self::get_referenced_locations_from_reference_entries(
            location,
            &children_or_none(node.operation_results()),
        ) {
            Ok(found) => found,
            Err(error) => {
                return Err(error);
            },
        };
        let mut more = match self.nested_result_references(
            location,
            &children_or_none(node.operation_results()),
        ) {
            Ok(more) => more,
            Err(error) => {
                return Err(error);
            },
        };
        let ghost before = found.deep_view();
        let ghost added = more.deep_view();
        found.append(&mut more);
        assert(found.deep_view() =~= before + added);
        let mut more = match Self::get_referenced_locations_from_reference_entries(
            location,
            &children_or_none(node.request_parameters()),
        ) {
            Ok(more) => more,
            Err(error) => {
                return Err(error);
            },
        };
        let ghost before = found.deep_view();
        let ghost added = more.deep_view();
        found.append(&mut more);
        assert(found.deep_view() =~= before + added);
        Ok(found)
    }

    /// What the operations of a path refer to.
    fn nested_operation_references(
        &self,
        location: &Location,
        entries: &Vec<Child<'_>>,
    ) -> (result: Result<Vec<Location>, DocumentError>)
        ensures
            agrees(result, nested_operation_references_from(location@, entries.deep_view(), 0)),
    {
        let mut found: Vec<Location> = Vec::new();
        let mut index: usize = 0;
        proof {
            lemma_continued_start(nested_operation_references_from(location@, entries.deep_view(), 0));
            assert(found.deep_view() =~= Seq::<LocationView>::empty());
        }
        while index < entries.len()
            invariant
                index <= entries.len(),
                nested_operation_references_from(location@, entries.deep_view(), 0) == continued(
                    found.deep_view(),
                    nested_operation_references_from(location@, entries.deep_view(), index as int),
                ),
            decreases entries.len() - index,
        {
            let ghost done = found.deep_view();
            let entry = &entries[index];
            assert(entry.deep_view() == entries.deep_view()[index as int]);
            let place = location.push_pointer(copy_pointer(&entry.pointer));
            let mut chunk = match self.get_referenced_locations_from_operation(&place, Operation::new(entry.node)) {
                Ok(chunk) => chunk,
                Err(error) => {
                    return Err(error);
                },
            };
            proof {
                lemma_continued_chunk(
                    done,
                    chunk.deep_view(),
                    nested_operation_references_from(location@, entries.deep_view(), index + 1),
                );
            }
            let ghost added = chunk.deep_view();
            found.append(&mut chunk);
            assert(found.deep_view() =~= done + added);
            index += 1;
        }
        proof {
            lemma_continued_end(found.deep_view());
        }
        Ok(found)
    }

    /// The locations that a path refers to.
    pub fn get_referenced_locations_from_path(
        &self,
        location: &Location,
        node: Path<'_>,
    ) -> (result: Result<Vec<Location>, DocumentError>)
        ensures
            agrees(result, path_references(location@, node@)),
    {
        let mut found = match self.nested_operation_references(location, &children_or_none(node.operations())) {
            Ok(found) => found,
            Err(error) => {
                return Err(error);
            },
        };
        let mut more = match Self::get_referenced_locations_from_reference_entries(
            location,
            &children_or_none(node.request_parameters()),
        ) {
            Ok(more) => more,
            Err(error) => {
                return Err(error);
            },
        };
        let ghost before = found.deep_view();
        let ghost added = more.deep_view();
        found.append(&mut more);
        assert(found.deep_view() =~= before + added);
        Ok(found)
    }

    /// What the paths refer to that are no references themselves.
    fn nested_path_references(
        &self,
        location: &Location,
        entries: &Vec<Child<'_>>,
    ) -> (result: Result<Vec<Location>, DocumentError>)
        ensures
            agrees(result, nested_path_references_from(location@, entries.deep_view(), 0)),
    {
        let mut found: Vec<Location> = Vec::new();
        let mut index: usize = 0;
        proof {
            lemma_continued_start(nested_path_references_from(location@, entries.deep_view(), 0));
            assert(found.deep_view() =~= Seq::<LocationView>::empty());
        }
        while index < entries.len()
            invariant
                index <= entries.len(),
                nested_path_references_from(location@, entries.deep_view(), 0) == continued(
                    found.deep_view(),
                    nested_path_references_from(location@, entries.deep_view(), index as int),
                ),
            decreases entries.len() - index,
        {
            let ghost done = found.deep_view();
            let entry = &entries[index];
            assert(entry.deep_view() == entries.deep_view()[index as int]);
            match NodeOrReference::new(entry.node) {
                NodeOrReference::Reference(_) => {},
                NodeOrReference::Node(own) => {
                    let place = location.push_pointer(copy_pointer(&entry.pointer));
                    let mut chunk = match self.get_referenced_locations_from_path(&place, Path::new(own)) {
                        Ok(chunk) => chunk,
                        Err(error) => {
                            return Err(error);
                        },
                    };
                    proof {
                        lemma_continued_chunk(
                            done,
                            chunk.deep_view(),
                            nested_path_references_from(location@, entries.deep_view(), index + 1),
                        );
                    }
                    let ghost added = chunk.deep_view();
                    found.append(&mut chunk);
                    assert(found.deep_view() =~= done + added);
                },
            }
            index += 1;
        }
        proof {
            lemma_continued_end(found.deep_view());
        }
        Ok(found)
    }

    /// The locations that an API refers to.
    pub fn get_referenced_locations_from_api(
        &self,
        location: &Location,
        node: Api<'_>,
    ) -> (result: Result<Vec<Location>, DocumentError>)
        ensures
            agrees(result, api_references(location@, node@)),
    {
        let mut found = match Self::get_referenced_locations_from_reference_entries(
            location,
            &children_or_none(node.paths()),
        ) {
            Ok(found) => found,
            Err(error) => {
                return Err(error);
            },
        };
        let mut more = match self.nested_path_references(location, &children_or_none(node.paths())) {
            Ok(more) => more,
            Err(error) => {
                return Err(error);
            },
        };
        let ghost before = found.deep_view();
        let ghost added = more.deep_view();
        found.append(&mut more);
        assert(found.deep_view() =~= before + added);
        Ok(found)
    }

    /// The location of the schema of a parameter of a request.
    pub fn get_schema_locations_from_request_parameter(
        &self,
        location: &Location,
        node: Parameter<'_>,
    ) -> (found: Vec<Location>)
        ensures
            found.deep_view() == schema_locations_of(location@, node@),
    {
        let mut found: Vec<Location> = Vec::new();
        match node.schema_pointer() {
            Some(pointer) => {
                let schema = location.push_pointer(pointer);
                found.push(schema);
                assert(found.deep_view() =~= seq![schema@]);
            },
            None => {
                assert(found.deep_view() =~= Seq::<LocationView>::empty());
            },
        }
        found
    }

    /// The location of the schema of a header of a response.
    pub fn get_schema_locations_from_response_header(
        &self,
        location: &Location,
        node: ResponseHeader<'_>,
    ) -> (found: Vec<Location>)
        ensures
            found.deep_view() == schema_locations_of(location@, node@),
    {
        let mut found: Vec<Location> = Vec::new();
        match node.schema_pointer() {
            Some(pointer) => {
                let schema = location.push_pointer(pointer);
                found.push(schema);
                assert(found.deep_view() =~= seq![schema@]);
            },
            None => {
                assert(found.deep_view() =~= Seq::<LocationView>::empty());
            },
        }
        found
    }

    /// The location of the schema of a body.
    pub fn get_schema_locations_from_body(
        &self,
        location: &Location,
        node: Body<'_>,
    ) -> (found: Vec<Location>)
        ensures
            found.deep_view() == schema_locations_of(location@, node@),
    {
        let mut found: Vec<Location> = Vec::new();
        match node.schema_pointer() {
            Some(pointer) => {
                let schema = location.push_pointer(pointer);
                found.push(schema);
                assert(found.deep_view() =~= seq![schema@]);
            },
            None => {
                assert(found.deep_view() =~= Seq::<LocationView>::empty());
            },
        }
        found
    }

    /// The locations of the schemas of a list of entries. Where `all` is not
    /// set, entries that are references are left out.
    fn entry_schema_locations(
        &self,
        location: &Location,
        entries: &Vec<Child<'_>>,
        all: bool,
    ) -> (found: Vec<Location>)
        ensures
            found.deep_view() == entry_schema_locations_from(location@, entries.deep_view(), all, 0),
    {
        let mut found: Vec<Location> = Vec::new();
        let mut index: usize = 0;
        assert(found.deep_view() + entry_schema_locations_from(
            location@,
            entries.deep_view(),
            all,
            0,
        ) =~= entry_schema_locations_from(location@, entries.deep_view(), all, 0));
        while index < entries.len()
            invariant
                index <= entries.len(),
                entry_schema_locations_from(location@, entries.deep_view(), all, 0)
                    == found.deep_view() + entry_schema_locations_from(
                    location@,
                    entries.deep_view(),
                    all,
                    index as int,
                ),
            decreases entries.len() - index,
        {
            let ghost done = found.deep_view();
            let ghost rest = entry_schema_locations_from(location@, entries.deep_view(), all, index + 1);
            let entry = &entries[index];
            assert(entry.deep_view() == entries.deep_view()[index as int]);
            let skipped = !all && NodeOrReference::new(entry.node).into_node().is_none();
            if !skipped {
                let place = location.push_pointer(copy_pointer(&entry.pointer));
                let mut chunk = self.get_schema_locations_from_body(&place, Body::new(entry.node));
                let ghost added = chunk.deep_view();
                found.append(&mut chunk);
                assert(found.deep_view() =~= done + added);
                assert((done + added) + rest =~= done + (added + rest));
            }
            index += 1;
        }
        assert(found.deep_view() + Seq::<LocationView>::empty() =~= found.deep_view());
        found
    }

    /// The locations of the schemas of an answer.
    pub fn get_schema_locations_from_operation_result(
        &self,
        location: &Location,
        node: OperationResult<'_>,
    ) -> (found: Vec<Location>)
        ensures
            found.deep_view() == operation_result_schema_locations(location@, node@),
    {
        let mut found = self.entry_schema_locations(
            location,
            &children_or_none(node.response_headers()),
            false,
        );
        let mut more = self.entry_schema_locations(location, &children_or_none(node.bodies()), true);
        let ghost before = found.deep_view();
        let ghost added = more.deep_view();
        found.append(&mut more);
        assert(found.deep_view() =~= before + added);
        found
    }

    /// The locations of the schemas of the answers that are no references.
    fn result_schema_locations(
        &self,
        location: &Location,
        entries: &Vec<Child<'_>>,
    ) -> (found: Vec<Location>)
        ensures
            found.deep_view() == result_schema_locations_from(location@, entries.deep_view(), 0),
    {
        let mut found: Vec<Location> = Vec::new();
        let mut index: usize = 0;
        assert(found.deep_view() + result_schema_locations_from(location@, entries.deep_view(), 0) =~= result_schema_locations_from(
            location@,
            entries.deep_view(),
            0,
        ));
        while index < entries.len()
            invariant
                index <= entries.len(),
                result_schema_locations_from(location@, entries.deep_view(), 0) == found.deep_view() + result_schema_locations_from(
                    location@,
                    entries.deep_view(),
                    index as int,
                ),
            decreases entries.len() - index,
        {
            let ghost done = found.deep_view();
            let entry = &entries[index];
            assert(entry.deep_view() == entries.deep_view()[index as int]);
            match NodeOrReference::new(entry.node) {
                NodeOrReference::Reference(_) => {},
                NodeOrReference::Node(own) => {
                    let place = location.push_pointer(copy_pointer(&entry.pointer));
                    let mut chunk = self.get_schema_locations_from_operation_result(&place, OperationResult::new(own));
                    let ghost added = chunk.deep_view();
                    found.append(&mut chunk);
                    assert(found.deep_view() =~= done + added);
                    assert((done + added) + result_schema_locations_from(location@, entries.deep_view(), index + 1) =~= done
                        + (added + result_schema_locations_from(location@, entries.deep_view(), index + 1)));
                },
            }
            index += 1;
        }
        assert(found.deep_view() + Seq::<LocationView>::empty() =~= found.deep_view());
        found
    }

    /// The locations of the schemas of an operation.
    pub fn get_schema_locations_from_operation(
        &self,
        location: &Location,
        node: Operation<'_>,
    ) -> (found: Vec<Location>)
        ensures
            found.deep_view() == operation_schema_locations(location@, node@),
    {
        let mut found = self.entry_schema_locations(
            location,
            &children_or_none(node.request_parameters()),
            false,
        );
        let mut more = self.result_schema_locations(
            location,
            &children_or_none(node.operation_results()),
        );
        let ghost before = found.deep_view();
        let ghost added = more.deep_view();
        found.append(&mut more);
        assert(found.deep_view() =~= before + added);
        found
    }

    /// The locations of the schemas of the operations of a path.
    fn operations_schema_locations(
        &self,
        location: &Location,
        entries: &Vec<Child<'_>>,
    ) -> (found: Vec<Location>)
        ensures
            found.deep_view() == operations_schema_locations_from(location@, entries.deep_view(), 0),
    {
        let mut found: Vec<Location> = Vec::new();
        let mut index: usize = 0;
        assert(found.deep_view() + operations_schema_locations_from(location@, entries.deep_view(), 0) =~= operations_schema_locations_from(
            location@,
            entries.deep_view(),
            0,
        ));
        while index < entries.len()
            invariant
                index <= entries.len(),
                operations_schema_locations_from(location@, entries.deep_view(), 0) == found.deep_view() + operations_schema_locations_from(
                    location@,
                    entries.deep_view(),
                    index as int,
                ),
            decreases entries.len() - index,
        {
            let ghost done = found.deep_view();
            let entry = &entries[index];
            assert(entry.deep_view() == entries.deep_view()[index as int]);
            let place = location.push_pointer(copy_pointer(&entry.pointer));
            let mut chunk = self.get_schema_locations_from_operation(&place, Operation::new(entry.node));
            let ghost added = chunk.deep_view();
            found.append(&mut chunk);
            assert(found.deep_view() =~= done + added);
            assert((done + added) + operations_schema_locations_from(location@, entries.deep_view(), index + 1) =~= done
                + (added + operations_schema_locations_from(location@, entries.deep_view(), index + 1)));
            index += 1;
        }
        assert(found.deep_view() + Seq::<LocationView>::empty() =~= found.deep_view());
        found
    }

    /// The locations of the schemas of a path.
    pub fn get_schema_locations_from_path(
        &self,
        location: &Location,
        node: Path<'_>,
    ) -> (found: Vec<Location>)
        ensures
            found.deep_view() == path_schema_locations(location@, node@),
    {
        let mut found = self.entry_schema_locations(
            location,
            &children_or_none(node.request_parameters()),
            false,
        );
        let mut more = self.operations_schema_locations(location, &children_or_none(node.operations()));
        let ghost before = found.deep_view();
        let ghost added = more.deep_view();
        found.append(&mut more);
        assert(found.deep_view() =~= before + added);
        found
    }

    /// The locations of the schemas of the paths that are no references.
    fn paths_schema_locations(
        &self,
        location: &Location,
        entries: &Vec<Child<'_>>,
    ) -> (found: Vec<Location>)
        ensures
            found.deep_view() == paths_schema_locations_from(location@, entries.deep_view(), 0),
    {
        let mut found: Vec<Location> = Vec::new();
        let mut index: usize = 0;
        assert(found.deep_view() + paths_schema_locations_from(location@, entries.deep_view(), 0) =~= paths_schema_locations_from(
            location@,
            entries.deep_view(),
            0,
        ));
        while index < entries.len()
            invariant
                index <= entries.len(),
                paths_schema_locations_from(location@, entries.deep_view(), 0) == found.deep_view() + paths_schema_locations_from(
                    location@,
                    entries.deep_view(),
                    index as int,
                ),
            decreases entries.len() - index,
        {
            let ghost done = found.deep_view();
            let entry = &entries[index];
            assert(entry.deep_view() == entries.deep_view()[index as int]);
            match NodeOrReference::new(entry.node) {
                NodeOrReference::Reference(_) => {},
                NodeOrReference::Node(own) => {
                    let place = location.push_pointer(copy_pointer(&entry.pointer));
                    let mut chunk = self.get_schema_locations_from_path(&place, Path::new(own));
                    let ghost added = chunk.deep_view();
                    found.append(&mut chunk);
                    assert(found.deep_view() =~= done + added);
                    assert((done + added) + paths_schema_locations_from(location@, entries.deep_view(), index + 1) =~= done
                        + (added + paths_schema_locations_from(location@, entries.deep_view(), index + 1)));
                },
            }
            index += 1;
        }
        assert(found.deep_view() + Seq::<LocationView>::empty() =~= found.deep_view());
        found
    }

    /// The locations of the schemas of an API.
    pub fn get_schema_locations_from_api(
        &self,
        location: &Location,
        node: Api<'_>,
    ) -> (found: Vec<Location>)
        ensures
            found.deep_view() == api_schema_locations(location@, node@),
    {
        self.paths_schema_locations(location, &children_or_none(node.paths()))
    }

    /// The models of the bodies that are declared below a location.
    fn make_body_models(
        &self,
        location: &Location,
        entries: Vec<Child<'_>>,
    ) -> (bodies: Vec<models::Body>)
        ensures
            bodies.deep_view() == body_models(location@, entries.deep_view()),
    {
        let mut bodies: Vec<models::Body> = Vec::new();
        let mut index: usize = 0;
        while index < entries.len()
            invariant
                index <= entries.len(),
                bodies.len() == index,
                forall|i: int|
                    0 <= i < index ==> (#[trigger] bodies[i]).deep_view() == body_models(
                        location@,
                        entries.deep_view(),
                    )[i],
            decreases entries.len() - index,
        {
            let entry = &entries[index];
            let pointer = crate::utils::node::copy_pointer(&entry.pointer);
            assert(entry.deep_view() == entries.deep_view()[index as int]);
            let content_type = last_segment(&entry.pointer);
            let body_location = location.push_pointer(pointer);
            bodies.push(Self::body(body_location, Body::new(entry.node), content_type));
            index += 1;
        }
        assert(bodies.deep_view() =~= body_models(location@, entries.deep_view()));
        bodies
    }
}

impl DocumentInterface for Document {
    open spec fn document_location(&self) -> LocationView {
        self.location()
    }

    open spec fn api_model(&self, cache: CacheView) -> Result<ApiView, DocumentError> {
        document_api_model(cache, self.location())
    }

    fn get_document_location(&self) -> (location: Location) {
        self.retrieval_location.clone()
    }

    fn get_api_model(&self, cache: &NodeCache) -> (result: Result<models::Api, DocumentError>) {
        let api_location = self.retrieval_location.clone();
        match cache.get_node(&api_location) {
            Some(api_node) => self.make_api_model(cache, api_location, Api::new(api_node)),
            None => Err(DocumentError::NodeNotFound),
        }
    }
}

impl ReferencedLocations for Document {
    open spec fn referenced_locations(
        &self,
        cache: CacheView,
    ) -> Result<Seq<LocationView>, DocumentError> {
        document_references(cache, self.location())
    }

    fn get_referenced_locations(
        &self,
        cache: &NodeCache,
    ) -> (result: Result<Vec<Location>, DocumentError>) {
        match cache.get_node(&self.retrieval_location) {
            Some(api_node) => self.get_referenced_locations_from_api(
                &self.retrieval_location,
                Api::new(api_node),
            ),
            None => Err(DocumentError::NodeNotFound),
        }
    }
}

impl SchemaLocations for Document {
    open spec fn schema_locations(
        &self,
        cache: CacheView,
    ) -> Result<Seq<LocationView>, DocumentError> {
        document_schema_locations(cache, self.location())
    }

    fn get_schema_locations(
        &self,
        cache: &NodeCache,
    ) -> (result: Result<Vec<Location>, DocumentError>) {
        match cache.get_node(&self.retrieval_location) {
            Some(api_node) => Ok(
                self.get_schema_locations_from_api(&self.retrieval_location, Api::new(api_node)),
            ),
            None => Err(DocumentError::NodeNotFound),
        }
    }
}

/// A copy of the name that a pointer ends in.
pub fn last_segment(pointer: &Vec<String>) -> (segment: String)
    ensures
        segment@ == key_of(pointer.deep_view()),
{
    if pointer.len() == 0 {
        String::new()
    } else {
        assert(pointer.deep_view().last() == pointer[pointer.len() - 1]@);
        pointer[pointer.len() - 1].clone()
    }
}

/// A list turned around.
pub fn reverse_list<T: DeepView>(list: Vec<T>) -> (reversed: Vec<T>)
    ensures
        reversed.deep_view() == list.deep_view().reverse(),
{
    let mut list = list;
    let ghost all = list.deep_view();
    let mut reversed: Vec<T> = Vec::new();
    while list.len() > 0
        invariant
            list.len() + reversed.len() == all.len(),
            forall|i: int| 0 <= i < list.len() ==> (#[trigger] list.deep_view()[i]) == all[i],
            forall|i: int|
                0 <= i < reversed.len() ==> (#[trigger] reversed.deep_view()[i]) == all[all.len() - 1
                    - i],
        decreases list.len(),
    {
        let ghost before = list.deep_view();
        let ghost made = reversed.deep_view();
        let last = list.pop().unwrap();
        assert(list.deep_view() =~= before.drop_last());
        assert(last.deep_view() == before[before.len() - 1]);
        reversed.push(last);
        assert(reversed.deep_view() =~= made.push(last.deep_view()));
    }
    assert(reversed.deep_view() =~= all.reverse());
    reversed
}

/// Whether a list of answers is in the order of their status kinds.
pub open spec fn in_order(results: Seq<OperationResultView>) -> bool {
    forall|i: int, j: int|
        0 <= i < j < results.len() ==> text_le(
            #[trigger] results[i].status_kind,
            #[trigger] results[j].status_kind,
        )
}

/// The place of a new answer lies behind the answers that come before it or
/// with it, and before the first answer that comes after it.
pub proof fn lemma_insertion_point(
    results: Seq<OperationResultView>,
    status_kind: Seq<char>,
    start: int,
)
    requires
        0 <= start <= results.len(),
    ensures
        start <= insertion_point(results, status_kind, start) <= results.len(),
        forall|i: int|
            start <= i < insertion_point(results, status_kind, start) ==> text_le(
                #[trigger] results[i].status_kind,
                status_kind,
            ),
        insertion_point(results, status_kind, start) < results.len() ==> !text_le(
            results[insertion_point(results, status_kind, start)].status_kind,
            status_kind,
        ),
    decreases results.len() - start,
{
    if start < results.len() && text_le(results[start].status_kind, status_kind) {
        lemma_insertion_point(results, status_kind, start + 1);
    }
}

/// The answers of an operation come out in the order of their status kinds,
/// and they are the answers that went in, each as often as it went in.
pub proof fn lemma_ordered_results(results: Seq<OperationResultView>)
    ensures
        in_order(ordered_results(results)),
        ordered_results(results).len() == results.len(),
        ordered_results(results).to_multiset() == results.to_multiset(),
    decreases results.len(),
{
    if results.len() == 0 {
        assert(ordered_results(results) =~= results);
    } else {
        let before = ordered_results(results.drop_last());
        let last = results.last();
        let place = insertion_point(before, last.status_kind, 0);
        let after = before.insert(place, last);
        lemma_ordered_results(results.drop_last());
        lemma_insertion_point(before, last.status_kind, 0);
        before.insert_ensures(place, last);
        assert forall|i: int, j: int| 0 <= i < j < after.len() implies text_le(
            #[trigger] after[i].status_kind,
            #[trigger] after[j].status_kind,
        ) by {
            if j == place {
                assert(after[i] == before[i]);
            } else if i == place {
                assert(after[j] == before[j - 1]);
                lemma_text_le_total(before[place].status_kind, last.status_kind, 0);
                if place < j - 1 {
                    assert(text_le(before[place].status_kind, before[j - 1].status_kind));
                    lemma_text_le_transitive(
                        last.status_kind,
                        before[place].status_kind,
                        before[j - 1].status_kind,
                        0,
                    );
                }
            } else if j < place {
                assert(after[i] == before[i] && after[j] == before[j]);
            } else if i < place {
                assert(after[i] == before[i] && after[j] == before[j - 1]);
            } else {
                assert(after[i] == before[i - 1] && after[j] == before[j - 1]);
            }
        }
        assert(after.remove(place) =~= before);
        vstd::seq_lib::to_multiset_remove(after, place);
        vstd::seq_lib::to_multiset_build(results.drop_last(), last);
        assert(results.drop_last().push(last) =~= results);
        after.to_multiset_ensures();
        assert(after.contains(last)) by {
            assert(after[place] == last);
        }
        assert(after.to_multiset() =~= before.to_multiset().insert(last));
    }
}

/// The paths of an API are numbered from one on, in the order in which they
/// stand in the document.
pub proof fn lemma_path_ids(
    cache: CacheView,
    location: LocationView,
    entries: Seq<EntryView>,
    start: int,
)
    requires
        0 <= start <= entries.len(),
    ensures
        path_models_from(cache, location, entries, start) matches Ok(paths) ==> paths.len()
            == entries.len() - start && forall|i: int|
            0 <= i < paths.len() ==> (#[trigger] paths[i]).id == ((start + i + 1) as usize),
    decreases entries.len() - start,
{
    if start < entries.len() {
        lemma_path_ids(cache, location, entries, start + 1);
        if path_models_from(cache, location, entries, start) is Ok {
            reveal(path_model);
            let paths = path_models_from(cache, location, entries, start)->Ok_0;
            let rest = path_models_from(cache, location, entries, start + 1)->Ok_0;
            assert(paths.len() == rest.len() + 1);
            assert(paths[0].id == ((start + 1) as usize));
            assert forall|i: int| 0 <= i < paths.len() implies (#[trigger] paths[i]).id == ((start + i
                + 1) as usize) by {
                if i > 0 {
                    assert(paths[i] == rest[i - 1]);
                }
            }
        }
    }
}

/// The model of an API is determined by the cache and the location of the
/// document: two readings of one cache give models of one view, paths and
/// operations in the same order, or fail alike.
pub proof fn lemma_model_is_determined(
    cache: CacheView,
    location: LocationView,
    first: Result<models::Api, DocumentError>,
    second: Result<models::Api, DocumentError>,
)
    requires
        agrees(first, document_api_model(cache, location)),
        agrees(second, document_api_model(cache, location)),
    ensures
        first is Ok <==> second is Ok,
        first is Ok ==> first->Ok_0.deep_view() == second->Ok_0.deep_view(),
        first is Err ==> first->Err_0 == second->Err_0,
{
}

} // verus!
