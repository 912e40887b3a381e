//! The model of an API, free of the dialect that the documents are written in.
pub mod api;
pub mod body;
pub mod method;
pub mod operation;
pub mod operation_result;
pub mod parameter;
pub mod path;

pub use api::{Api, ApiView};
pub use body::{Body, BodyView};
pub use method::Method;
pub use operation::{AuthenticationRequirement, Operation, OperationView};
pub use operation_result::{OperationResult, OperationResultView};
pub use parameter::{Parameter, ParameterView};
pub use path::{Path, PathView};
