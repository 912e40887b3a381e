//! The reading of a document of version 3.1. So far the document is taken as
//! it is: nothing in it is followed.
use crate::error::DocumentError;
use crate::utils::node::{Node, NodeView};
use crate::utils::node_cache::NodeCache;
use crate::utils::node_location::{Location, LocationView};
use vstd::prelude::*;

verus! {

/// The reader of one document of version 3.1: the location that the
/// document was retrieved from, and its root.
pub struct Document<'a> {
    retrieval_location: Location,
    node: &'a Node,
}

impl<'a> Document<'a> {
    /// The location that the document was retrieved from.
    pub closed spec fn location(&self) -> LocationView {
        self.retrieval_location@
    }

    /// The root of the document.
    pub closed spec fn root(&self) -> NodeView {
        self.node@
    }

    /// The reader of the document at a location, whose root has to be in the
    /// cache.
    pub fn new(
        cache: &'a NodeCache,
        retrieval_location: Location,
    ) -> (result: Result<Self, DocumentError>)
        requires
            cache.wf(),
        ensures
            match result {
                Ok(document) => cache@.contains_key(retrieval_location@) && document.location()
                    == retrieval_location@ && document.root() == cache@[retrieval_location@],
                Err(error) => error == DocumentError::NodeNotFound && !cache@.contains_key(
                    retrieval_location@,
                ),
            },
    {
        match cache.get_node(&retrieval_location) {
            Some(node) => Ok(Document { retrieval_location, node }),
            None => Err(DocumentError::NodeNotFound),
        }
    }

    /// The location of the document.
    pub fn get_document_location(&self) -> (location: Location)
        ensures
            location@ == self.location(),
    {
        self.retrieval_location.clone()
    }

    /// The locations that the document leads to: none.
    pub fn get_consequent_locations(&self) -> (locations: Vec<Location>)
        ensures
            locations.deep_view() == Seq::<LocationView>::empty(),
    {
        let locations: Vec<Location> = Vec::new();
        assert(locations.deep_view() =~= Seq::<LocationView>::empty());
        locations
    }
}

} // verus!
