use super::operation::AuthenticationRequirement;
use super::path::{Path, PathView};
use crate::utils::node_location::{Location, LocationView};
use vstd::prelude::*;

verus! {

/// An API: the paths of one document.
#[derive(Clone, Debug)]
pub struct Api {
    /// Where the API is declared.
    pub location: Location,
    pub paths: Vec<Path>,
    pub authentication: Vec<AuthenticationRequirement>,
}

/// What an API holds.
pub struct ApiView {
    pub location: LocationView,
    pub paths: Seq<PathView>,
    /// The number of ways to authenticate.
    pub authentication: nat,
}

impl DeepView for Api {
    type V = ApiView;

    open spec fn deep_view(&self) -> ApiView {
        ApiView {
            location: self.location@,
            paths: self.paths.deep_view(),
            authentication: self.authentication@.len(),
        }
    }
}

} // verus!
