//! Documents of version 3.1 of OpenAPI.
pub mod document;

pub use document::Document;
