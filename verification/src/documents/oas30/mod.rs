//! Documents of version 3.0 of OpenAPI.
pub mod document;
pub mod nodes;

pub use document::Document;
