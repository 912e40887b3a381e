use super::body::schema_pointer_of;
use crate::utils::node::{pointer_to, Node, NodeView};
use vstd::prelude::*;

verus! {

/// A header of a response.
#[derive(Clone, Copy)]
pub struct ResponseHeader<'a> {
    node: &'a Node,
}

impl<'a> View for ResponseHeader<'a> {
    type V = NodeView;

    open spec fn view(&self) -> NodeView {
        self.node()@
    }
}

impl<'a> ResponseHeader<'a> {
    /// The node that is read.
    pub closed spec fn node(&self) -> &'a Node {
        self.node
    }

    /// Reads a node as this kind of node.
    pub fn new(node: &'a Node) -> (read: Self)
        ensures
            read@ == node@,
    {
        ResponseHeader { node }
    }

    /// The pointer to the schema, where there is one.
    pub fn schema_pointer(&self) -> (pointer: Option<Vec<String>>)
        ensures
            match pointer {
                Some(pointer) => schema_pointer_of(self@) == Some(pointer.deep_view()),
                None => schema_pointer_of(self@) is None,
            },
    {
        match self.node.get("schema") {
            Some(_) => Some(pointer_to("schema")),
            None => None,
        }
    }

    /// Whether the header is always sent.
    pub fn required(&self) -> (value: Option<bool>)
        ensures
            value == self@.truth_member("required"@),
    {
        self.node.get_bool("required")
    }
}

} // verus!
