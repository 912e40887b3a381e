use crate::utils::node::{pointers_of, Child, EntryView, Node, NodeView};
use vstd::prelude::*;

verus! {

/// One of the answers of an operation.
#[derive(Clone, Copy)]
pub struct OperationResult<'a> {
    node: &'a Node,
}

impl<'a> View for OperationResult<'a> {
    type V = NodeView;

    open spec fn view(&self) -> NodeView {
        self.node()@
    }
}

impl<'a> OperationResult<'a> {
    /// The node that is read.
    pub closed spec fn node(&self) -> &'a Node {
        self.node
    }

    /// Reads a node as this kind of node.
    pub fn new(node: &'a Node) -> (read: Self)
        ensures
            read@ == node@,
    {
        OperationResult { node }
    }

    /// What the answer means.
    pub fn description(&self) -> (text: Option<&'a str>)
        ensures
            match text {
                Some(text) => self@.text_member("description"@) == Some(text@),
                None => self@.text_member("description"@) is None,
            },
    {
        match self.node.get("description") {
            Some(value) => value.as_str(),
            None => None,
        }
    }

    /// The headers of the answer, each with its pointer.
    pub fn response_headers(&self) -> (children: Option<Vec<Child<'a>>>)
        ensures
            match children {
                Some(children) => self@.members_under("headers"@) == Some(children.deep_view()),
                None => self@.members_under("headers"@) is None,
            },
    {
        self.node.members_under("headers")
    }

    /// The bodies of the answer, one for each content type.
    pub fn bodies(&self) -> (children: Option<Vec<Child<'a>>>)
        ensures
            match children {
                Some(children) => self@.members_under("content"@) == Some(children.deep_view()),
                None => self@.members_under("content"@) is None,
            },
    {
        self.node.members_under("content")
    }

    /// The pointers to the headers of the answer.
    pub fn header_parameter_pointers(&self) -> (pointers: Option<Vec<Vec<String>>>)
        ensures
            match pointers {
                Some(pointers) => self@.members_under("headers"@) matches Some(children)
                    && pointers.deep_view() == children.map_values(|entry: EntryView| entry.pointer),
                None => self@.members_under("headers"@) is None,
            },
    {
        match self.response_headers() {
            Some(children) => Some(pointers_of(&children)),
            None => None,
        }
    }

    /// The pointers to the bodies of the answer.
    pub fn body_pointers(&self) -> (pointers: Option<Vec<Vec<String>>>)
        ensures
            match pointers {
                Some(pointers) => self@.members_under("content"@) matches Some(children)
                    && pointers.deep_view() == children.map_values(|entry: EntryView| entry.pointer),
                None => self@.members_under("content"@) is None,
            },
    {
        match self.bodies() {
            Some(children) => Some(pointers_of(&children)),
            None => None,
        }
    }
}

} // verus!
