pub mod document_context;
pub mod location_map;
pub mod node;
pub mod node_cache;
pub mod node_location;
pub mod text;
pub mod yaml;
