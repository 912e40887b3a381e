use super::body::{Body, BodyView};
use super::parameter::{Parameter, ParameterView};
use crate::utils::node_location::{Location, LocationView};
use vstd::prelude::*;

verus! {

/// One of the answers that an operation can give.
#[derive(Clone, Debug)]
pub struct OperationResult {
    /// Where the answer is declared.
    pub location: Location,
    pub description: Option<String>,
    /// The key under which the answer is declared: a status code, a class of
    /// status codes, or the word for all others.
    pub status_kind: String,
    pub status_codes: Vec<usize>,
    pub mockable: bool,
    pub header_parameters: Vec<Parameter>,
    pub bodies: Vec<Body>,
}

/// What an answer holds.
pub struct OperationResultView {
    pub location: LocationView,
    pub description: Option<Seq<char>>,
    pub status_kind: Seq<char>,
    pub status_codes: Seq<usize>,
    pub mockable: bool,
    pub header_parameters: Seq<ParameterView>,
    pub bodies: Seq<BodyView>,
}

impl DeepView for OperationResult {
    type V = OperationResultView;

    open spec fn deep_view(&self) -> OperationResultView {
        OperationResultView {
            location: self.location@,
            description: match self.description {
                Some(text) => Some(text@),
                None => None,
            },
            status_kind: self.status_kind@,
            status_codes: self.status_codes@,
            mockable: self.mockable,
            header_parameters: self.header_parameters.deep_view(),
            bodies: self.bodies.deep_view(),
        }
    }
}

} // verus!
