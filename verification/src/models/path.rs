use super::operation::{Operation, OperationView};
use crate::utils::node_location::{Location, LocationView};
use vstd::prelude::*;

verus! {

/// One path of an API, with the operations that it offers.
#[derive(Clone, Debug)]
pub struct Path {
    /// The number of the path among the paths of its API, from one on.
    pub id: usize,
    /// Where the path is declared.
    pub location: Location,
    pub pattern: String,
    pub operations: Vec<Operation>,
}

/// What a path holds.
pub struct PathView {
    pub id: usize,
    pub location: LocationView,
    pub pattern: Seq<char>,
    pub operations: Seq<OperationView>,
}

impl DeepView for Path {
    type V = PathView;

    open spec fn deep_view(&self) -> PathView {
        PathView {
            id: self.id,
            location: self.location@,
            pattern: self.pattern@,
            operations: self.operations.deep_view(),
        }
    }
}

} // verus!
