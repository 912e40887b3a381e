//! The kinds of document that can be read, one module for each.
pub mod document_type;
pub mod interface;
pub mod oas30;
pub mod oas31;

pub use document_type::DocumentType;
pub use interface::{DocumentInterface, ReferencedLocations, SchemaLocations};
