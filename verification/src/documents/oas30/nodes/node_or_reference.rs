use crate::utils::node::{Node, NodeView};
use vstd::prelude::*;

verus! {

/// The location that a node refers to, where it is a reference: the text
/// under `$ref`.
pub open spec fn reference_of(node: NodeView) -> Option<Seq<char>> {
    node.text_member("$ref"@)
}

/// A node, or the reference that stands in its place.
#[derive(Clone, Copy)]
pub enum NodeOrReference<'a> {
    Reference(&'a str),
    Node(&'a Node),
}

impl<'a> NodeOrReference<'a> {
    /// Tells a reference from a node of its own.
    pub fn new(node: &'a Node) -> (read: Self)
        ensures
            match read {
                NodeOrReference::Reference(reference) => reference_of(node@) == Some(reference@),
                NodeOrReference::Node(own) => reference_of(node@) is None && own@ == node@,
            },
    {
        match node.get("$ref") {
            Some(value) => match value.as_str() {
                Some(reference) => NodeOrReference::Reference(reference),
                None => NodeOrReference::Node(node),
            },
            None => NodeOrReference::Node(node),
        }
    }

    /// The node, unless this is a reference.
    pub fn into_node(self) -> (node: Option<&'a Node>)
        ensures
            match self {
                NodeOrReference::Reference(_) => node is None,
                NodeOrReference::Node(own) => node == Some(own),
            },
    {
        match self {
            NodeOrReference::Reference(_) => None,
            NodeOrReference::Node(node) => Some(node),
        }
    }
}

} // verus!
