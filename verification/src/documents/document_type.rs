//! The kinds of document, and how a document tells its kind.
use crate::utils::node::{Node, NodeView};
use crate::utils::text::has_prefix;
use vstd::prelude::*;

verus! {

/// The kinds of document that are told apart.
#[derive(Clone, Copy, Debug, PartialEq, Eq, Structural)]
pub enum DocumentType {
    /// Version 3.0 of OpenAPI.
    OpenApiV30,
    /// Version 3.1 of OpenAPI.
    OpenApiV31,
    /// Version 2 of Swagger.
    SwaggerV2,
}

/// The kind that a document declares at its root: the version under
/// `openapi` where it begins with `3.0` or `3.1`, else the version under
/// `swagger` where it begins with `2.`.
pub open spec fn document_type_of(node: NodeView) -> Option<DocumentType> {
    if node.text_member("openapi"@) matches Some(version) && "3.0"@.is_prefix_of(version) {
        Some(DocumentType::OpenApiV30)
    } else if node.text_member("openapi"@) matches Some(version) && "3.1"@.is_prefix_of(version) {
        Some(DocumentType::OpenApiV31)
    } else if node.text_member("swagger"@) matches Some(version) && "2."@.is_prefix_of(version) {
        Some(DocumentType::SwaggerV2)
    } else {
        None
    }
}

impl DocumentType {
    /// The kind that a document declares at its root.
    pub fn discriminate(node: &Node) -> (document_type: Option<DocumentType>)
        ensures
            document_type == document_type_of(node@),
    {
        let openapi = match node.get("openapi") {
            Some(value) => value.as_str(),
            None => None,
        };
        let swagger = match node.get("swagger") {
            Some(value) => value.as_str(),
            None => None,
        };
        if openapi.is_some() && has_prefix(openapi.unwrap(), "3.0") {
            Some(DocumentType::OpenApiV30)
        } else if openapi.is_some() && has_prefix(openapi.unwrap(), "3.1") {
            Some(DocumentType::OpenApiV31)
        } else if swagger.is_some() && has_prefix(swagger.unwrap(), "2.") {
            Some(DocumentType::SwaggerV2)
        } else {
            None
        }
    }
}

} // verus!
