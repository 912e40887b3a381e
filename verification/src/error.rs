//! What can go wrong while documents are loaded and read.
use vstd::prelude::*;

verus! {

/// The failures of the library. Each of them ends the operation that met it.
#[derive(Clone, Copy, Debug, PartialEq, Eq, Structural)]
pub enum DocumentError {
    /// A document was to be loaded from a location that is no document root.
    NotARoot,
    /// A node, a document or the factory for a kind of document is missing.
    NotFound,
    /// A location was given a node that differs from the one it already has.
    ContentMismatch,
    /// A location was claimed twice, by different documents, or a chain of
    /// documents leads back into itself.
    Conflict,
    /// A reference leads to a location that holds no node.
    NodeNotFound,
    /// A reference is no location, or cannot be read at the place it stands.
    InvalidReference,
    /// An operation or a parameter has no name.
    MissingName,
    /// The text of a document is not in a format that can be read.
    InvalidDocument,
}

} // verus!
