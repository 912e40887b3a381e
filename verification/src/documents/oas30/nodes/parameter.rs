use super::body::schema_pointer_of;
use crate::utils::node::{pointer_to, Node, NodeView};
use vstd::prelude::*;

verus! {

/// A parameter of a request.
#[derive(Clone, Copy)]
pub struct Parameter<'a> {
    node: &'a Node,
}

impl<'a> View for Parameter<'a> {
    type V = NodeView;

    open spec fn view(&self) -> NodeView {
        self.node()@
    }
}

impl<'a> Parameter<'a> {
    /// The node that is read.
    pub closed spec fn node(&self) -> &'a Node {
        self.node
    }

    /// Reads a node as this kind of node.
    pub fn new(node: &'a Node) -> (read: Self)
        ensures
            read@ == node@,
    {
        Parameter { node }
    }

    /// The pointer to the schema, where there is one.
    pub fn schema_pointer(&self) -> (pointer: Option<Vec<String>>)
        ensures
            match pointer {
                Some(pointer) => schema_pointer_of(self@) == Some(pointer.deep_view()),
                None => schema_pointer_of(self@) is None,
            },
    {
        match self.node.get("schema") {
            Some(_) => Some(pointer_to("schema")),
            None => None,
        }
    }

    /// The name of the parameter.
    pub fn name(&self) -> (text: Option<&'a str>)
        ensures
            match text {
                Some(text) => self@.text_member("name"@) == Some(text@),
                None => self@.text_member("name"@) is None,
            },
    {
        match self.node.get("name") {
            Some(value) => value.as_str(),
            None => None,
        }
    }

    /// Whether the parameter has to be given.
    pub fn required(&self) -> (value: Option<bool>)
        ensures
            value == self@.truth_member("required"@),
    {
        self.node.get_bool("required")
    }

    /// The part of the request that carries the parameter.
    pub fn place(&self) -> (text: Option<&'a str>)
        ensures
            match text {
                Some(text) => self@.text_member("in"@) == Some(text@),
                None => self@.text_member("in"@) is None,
            },
    {
        match self.node.get("in") {
            Some(value) => value.as_str(),
            None => None,
        }
    }
}

} // verus!
