use crate::utils::node_location::{Location, LocationView};
use vstd::prelude::*;

verus! {

/// A parameter of a request, or a header of a response.
#[derive(Clone, Debug)]
pub struct Parameter {
    /// Where the parameter is declared.
    pub location: Location,
    pub name: String,
    pub required: bool,
    pub mockable: bool,
    /// Where the schema of the parameter is to be found, if it has one.
    pub schema_id: Option<Location>,
}

/// What a parameter holds.
pub struct ParameterView {
    pub location: LocationView,
    pub name: Seq<char>,
    pub required: bool,
    pub mockable: bool,
    pub schema_id: Option<LocationView>,
}

impl DeepView for Parameter {
    type V = ParameterView;

    open spec fn deep_view(&self) -> ParameterView {
        ParameterView {
            location: self.location@,
            name: self.name@,
            required: self.required,
            mockable: self.mockable,
            schema_id: match self.schema_id {
                Some(location) => Some(location@),
                None => None,
            },
        }
    }
}

} // verus!
