use crate::utils::node::same_text;
use vstd::prelude::*;

verus! {

/// The methods that an operation can answer to.
#[derive(Clone, Copy, Debug, PartialEq, Eq, Structural)]
pub enum Method {
    Get,
    Put,
    Post,
    Delete,
    Options,
    Head,
    Patch,
    Trace,
}

/// The method that a member of a path stands for, if it stands for one.
pub open spec fn method_of(key: Seq<char>) -> Option<Method> {
    if key == "get"@ {
        Some(Method::Get)
    } else if key == "put"@ {
        Some(Method::Put)
    } else if key == "post"@ {
        Some(Method::Post)
    } else if key == "delete"@ {
        Some(Method::Delete)
    } else if key == "options"@ {
        Some(Method::Options)
    } else if key == "head"@ {
        Some(Method::Head)
    } else if key == "patch"@ {
        Some(Method::Patch)
    } else if key == "trace"@ {
        Some(Method::Trace)
    } else {
        None
    }
}

impl Method {
    /// The method that a member of a path stands for, if it stands for one.
    pub fn from_key(key: &str) -> (method: Option<Method>)
        ensures
            method == method_of(key@),
    {
        if same_text(key, "get") {
            Some(Method::Get)
        } else if same_text(key, "put") {
            Some(Method::Put)
        } else if same_text(key, "post") {
            Some(Method::Post)
        } else if same_text(key, "delete") {
            Some(Method::Delete)
        } else if same_text(key, "options") {
            Some(Method::Options)
        } else if same_text(key, "head") {
            Some(Method::Head)
        } else if same_text(key, "patch") {
            Some(Method::Patch)
        } else if same_text(key, "trace") {
            Some(Method::Trace)
        } else {
            None
        }
    }
}

} // verus!
