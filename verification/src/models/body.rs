use crate::utils::node_location::{Location, LocationView};
use vstd::prelude::*;

verus! {

/// The body of a request or of a response, in one content type.
#[derive(Clone, Debug)]
pub struct Body {
    /// Where the body is declared.
    pub location: Location,
    pub content_type: String,
    /// Where the schema of the body is to be found, if it has one.
    pub schema_id: Option<Location>,
    pub mockable: bool,
}

/// What a body holds.
pub struct BodyView {
    pub location: LocationView,
    pub content_type: Seq<char>,
    pub schema_id: Option<LocationView>,
    pub mockable: bool,
}

impl DeepView for Body {
    type V = BodyView;

    open spec fn deep_view(&self) -> BodyView {
        BodyView {
            location: self.location@,
            content_type: self.content_type@,
            schema_id: match self.schema_id {
                Some(location) => Some(location@),
                None => None,
            },
            mockable: self.mockable,
        }
    }
}

} // verus!
