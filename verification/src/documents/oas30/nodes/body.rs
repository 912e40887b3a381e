use crate::utils::node::{pointer_to, Node, NodeView};
use vstd::prelude::*;

verus! {

/// The pointer to the schema of a node that has one.
pub open spec fn schema_pointer_of(node: NodeView) -> Option<Seq<Seq<char>>> {
    if node.member("schema"@) is Some {
        Some(seq!["schema"@])
    } else {
        None
    }
}

/// A body in one content type.
#[derive(Clone, Copy)]
pub struct Body<'a> {
    node: &'a Node,
}

impl<'a> View for Body<'a> {
    type V = NodeView;

    open spec fn view(&self) -> NodeView {
        self.node()@
    }
}

impl<'a> Body<'a> {
    /// The node that is read.
    pub closed spec fn node(&self) -> &'a Node {
        self.node
    }

    /// Reads a node as this kind of node.
    pub fn new(node: &'a Node) -> (read: Self)
        ensures
            read@ == node@,
    {
        Body { node }
    }

    /// The pointer to the schema, where there is one.
    pub fn schema_pointer(&self) -> (pointer: Option<Vec<String>>)
        ensures
            match pointer {
                Some(pointer) => schema_pointer_of(self@) == Some(pointer.deep_view()),
                None => schema_pointer_of(self@) is None,
            },
    {
        match self.node.get("schema") {
            Some(_) => Some(pointer_to("schema")),
            None => None,
        }
    }
}

} // verus!
