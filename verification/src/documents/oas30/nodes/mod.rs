//! The nodes of a document, each kind with what can be read from it.
pub mod api;
pub mod body;
pub mod node_or_reference;
pub mod operation;
pub mod operation_result;
pub mod parameter;
pub mod path;
pub mod reference;
pub mod response_header;

pub use api::Api;
pub use body::Body;
pub use node_or_reference::NodeOrReference;
pub use operation::Operation;
pub use operation_result::OperationResult;
pub use parameter::Parameter;
pub use path::Path;
pub use reference::Reference;
pub use response_header::ResponseHeader;
