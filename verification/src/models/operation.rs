use super::body::{Body, BodyView};
use super::method::Method;
use super::operation_result::{OperationResult, OperationResultView};
use super::parameter::{Parameter, ParameterView};
use crate::utils::node_location::{Location, LocationView};
use vstd::prelude::*;

verus! {

/// What a caller has to present to be let through.
#[derive(Clone, Debug)]
pub struct AuthenticationRequirement {
    pub authentication_name: String,
    pub scopes: Vec<String>,
}

/// One operation of a path.
#[derive(Clone, Debug)]
pub struct Operation {
    /// Where the operation is declared.
    pub location: Location,
    pub method: Method,
    pub name: String,
    pub summary: Option<String>,
    pub description: Option<String>,
    pub deprecated: bool,
    pub mockable: bool,
    /// One of the groups has to be met, and in it every requirement.
    pub authentication_requirements: Vec<Vec<AuthenticationRequirement>>,
    pub query_parameters: Vec<Parameter>,
    pub header_parameters: Vec<Parameter>,
    pub path_parameters: Vec<Parameter>,
    pub cookie_parameters: Vec<Parameter>,
    pub bodies: Vec<Body>,
    pub operation_results: Vec<OperationResult>,
}

/// What an operation holds.
pub struct OperationView {
    pub location: LocationView,
    pub method: Method,
    pub name: Seq<char>,
    pub summary: Option<Seq<char>>,
    pub description: Option<Seq<char>>,
    pub deprecated: bool,
    pub mockable: bool,
    /// The number of groups of requirements.
    pub authentication_requirements: nat,
    pub query_parameters: Seq<ParameterView>,
    pub header_parameters: Seq<ParameterView>,
    pub path_parameters: Seq<ParameterView>,
    pub cookie_parameters: Seq<ParameterView>,
    pub bodies: Seq<BodyView>,
    pub operation_results: Seq<OperationResultView>,
}

impl DeepView for Operation {
    type V = OperationView;

    open spec fn deep_view(&self) -> OperationView {
        OperationView {
            location: self.location@,
            method: self.method,
            name: self.name@,
            summary: match self.summary {
                Some(text) => Some(text@),
                None => None,
            },
            description: match self.description {
                Some(text) => Some(text@),
                None => None,
            },
            deprecated: self.deprecated,
            mockable: self.mockable,
            authentication_requirements: self.authentication_requirements@.len(),
            query_parameters: self.query_parameters.deep_view(),
            header_parameters: self.header_parameters.deep_view(),
            path_parameters: self.path_parameters.deep_view(),
            cookie_parameters: self.cookie_parameters.deep_view(),
            bodies: self.bodies.deep_view(),
            operation_results: self.operation_results.deep_view(),
        }
    }
}

} // verus!
