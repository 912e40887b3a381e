use crate::utils::node::{Node, NodeView};
use vstd::prelude::*;

verus! {

/// A node that stands for another one.
#[derive(Clone, Copy)]
pub struct Reference<'a> {
    node: &'a Node,
}

impl<'a> View for Reference<'a> {
    type V = NodeView;

    open spec fn view(&self) -> NodeView {
        self.node()@
    }
}

impl<'a> Reference<'a> {
    /// The node that is read.
    pub closed spec fn node(&self) -> &'a Node {
        self.node
    }

    /// Reads a node as this kind of node.
    pub fn new(node: &'a Node) -> (read: Self)
        ensures
            read@ == node@,
    {
        Reference { node }
    }

    /// The location of the node that this one stands for.
    pub fn reference(&self) -> (text: Option<&'a str>)
        ensures
            match text {
                Some(text) => self@.text_member("$ref"@) == Some(text@),
                None => self@.text_member("$ref"@) is None,
            },
    {
        match self.node.get("$ref") {
            Some(value) => value.as_str(),
            None => None,
        }
    }
}

} // verus!
