use crate::utils::node::{pointers_of, Child, EntryView, Node, NodeView};
use vstd::prelude::*;

verus! {

/// The root of a document.
#[derive(Clone, Copy)]
pub struct Api<'a> {
    node: &'a Node,
}

impl<'a> View for Api<'a> {
    type V = NodeView;

    open spec fn view(&self) -> NodeView {
        self.node()@
    }
}

impl<'a> Api<'a> {
    /// The node that is read.
    pub closed spec fn node(&self) -> &'a Node {
        self.node
    }

    /// Reads a node as this kind of node.
    pub fn new(node: &'a Node) -> (read: Self)
        ensures
            read@ == node@,
    {
        Api { node }
    }

    /// The paths of the API, each with its pointer.
    pub fn paths(&self) -> (children: Option<Vec<Child<'a>>>)
        ensures
            match children {
                Some(children) => self@.members_under("paths"@) == Some(children.deep_view()),
                None => self@.members_under("paths"@) is None,
            },
    {
        self.node.members_under("paths")
    }

    /// The pointers to the paths of the API.
    pub fn path_pointers(&self) -> (pointers: Option<Vec<Vec<String>>>)
        ensures
            match pointers {
                Some(pointers) => self@.members_under("paths"@) matches Some(children)
                    && pointers.deep_view() == children.map_values(|entry: EntryView| entry.pointer),
                None => self@.members_under("paths"@) is None,
            },
    {
        match self.paths() {
            Some(children) => Some(pointers_of(&children)),
            None => None,
        }
    }
}

} // verus!
