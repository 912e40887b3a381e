//! What every reader of a document offers, whatever the dialect.
use crate::error::DocumentError;
use crate::models::{Api, ApiView};
use crate::utils::node_cache::{CacheView, NodeCache};
use crate::utils::node_location::{Location, LocationView};
use vstd::prelude::*;

verus! {

/// Whether an outcome is the expected one: the value with the expected view,
/// or the expected error.
pub open spec fn agrees<T: DeepView>(
    result: Result<T, DocumentError>,
    expected: Result<T::V, DocumentError>,
) -> bool {
    match expected {
        Ok(model) => result matches Ok(value) && value.deep_view() == model,
        Err(error) => result matches Err(raised) && raised == error,
    }
}

/// A reader that builds the model of the API of its document.
pub trait DocumentInterface {
    /// The location of the document.
    spec fn document_location(&self) -> LocationView;

    /// The model that the nodes of a cache give for the document.
    spec fn api_model(&self, cache: CacheView) -> Result<ApiView, DocumentError>;

    /// The location of the document.
    fn get_document_location(&self) -> (location: Location)
        ensures
            location@ == self.document_location(),
    ;

    /// The model of the API of the document, built from the nodes of a
    /// cache.
    fn get_api_model(&self, cache: &NodeCache) -> (result: Result<Api, DocumentError>)
        requires
            cache.wf(),
        ensures
            agrees(result, self.api_model(cache@)),
    ;
}

/// A reader that finds the locations that its document refers to.
pub trait ReferencedLocations {
    /// The locations that the document refers to, in the order of the
    /// document.
    spec fn referenced_locations(
        &self,
        cache: CacheView,
    ) -> Result<Seq<LocationView>, DocumentError>;

    /// The locations that the document refers to.
    fn get_referenced_locations(
        &self,
        cache: &NodeCache,
    ) -> (result: Result<Vec<Location>, DocumentError>)
        requires
            cache.wf(),
        ensures
            agrees(result, self.referenced_locations(cache@)),
    ;
}

/// A reader that finds the locations of the schemas of its document.
pub trait SchemaLocations {
    /// The locations of the schemas of the document, in the order of the
    /// document.
    spec fn schema_locations(&self, cache: CacheView) -> Result<Seq<LocationView>, DocumentError>;

    /// The locations of the schemas of the document.
    fn get_schema_locations(
        &self,
        cache: &NodeCache,
    ) -> (result: Result<Vec<Location>, DocumentError>)
        requires
            cache.wf(),
        ensures
            agrees(result, self.schema_locations(cache@)),
    ;
}

} // verus!
