use crate::utils::node::{
    copy_pointer, extended, pointer_to, pointers_of, same_text, Child, EntryView, Node, NodeView,
};
use vstd::prelude::*;

verus! {

/// The bodies that an operation takes: the members of the content of its
/// request body.
pub open spec fn request_bodies(node: NodeView) -> Option<Seq<EntryView>> {
    match node.member("requestBody"@) {
        Some(request) => match request.member("content"@) {
            Some(content) => content.object_children(seq!["requestBody"@, "content"@]),
            None => None,
        },
        None => None,
    }
}

/// The pointers to the entries from `start` on whose node says that it is
/// carried in one part of the request.
pub open spec fn placed_pointers_from(
    entries: Seq<EntryView>,
    place: Seq<char>,
    start: int,
) -> Seq<Seq<Seq<char>>>
    decreases entries.len() - start,
{
    if start < 0 || start >= entries.len() {
        Seq::empty()
    } else if entries[start].node.text_member("in"@) == Some(place) {
        seq![entries[start].pointer] + placed_pointers_from(entries, place, start + 1)
    } else {
        placed_pointers_from(entries, place, start + 1)
    }
}

/// The pointers to the parameters of an operation that are carried in one
/// part of the request. A parameter that is a reference has no part.
pub open spec fn placed_parameter_pointers(
    node: NodeView,
    place: Seq<char>,
) -> Option<Seq<Seq<Seq<char>>>> {
    match node.items_under("parameters"@) {
        Some(entries) => Some(placed_pointers_from(entries, place, 0)),
        None => None,
    }
}

/// One operation of a path.
#[derive(Clone, Copy)]
pub struct Operation<'a> {
    node: &'a Node,
}

impl<'a> View for Operation<'a> {
    type V = NodeView;

    open spec fn view(&self) -> NodeView {
        self.node()@
    }
}

impl<'a> Operation<'a> {
    /// The node that is read.
    pub closed spec fn node(&self) -> &'a Node {
        self.node
    }

    /// Reads a node as this kind of node.
    pub fn new(node: &'a Node) -> (read: Self)
        ensures
            read@ == node@,
    {
        Operation { node }
    }

    /// The name of the operation.
    pub fn name(&self) -> (text: Option<&'a str>)
        ensures
            match text {
                Some(text) => self@.text_member("name"@) == Some(text@),
                None => self@.text_member("name"@) is None,
            },
    {
        match self.node.get("name") {
            Some(value) => value.as_str(),
            None => None,
        }
    }

    /// The operation in a few words.
    pub fn summary(&self) -> (text: Option<&'a str>)
        ensures
            match text {
                Some(text) => self@.text_member("summary"@) == Some(text@),
                None => self@.text_member("summary"@) is None,
            },
    {
        match self.node.get("summary") {
            Some(value) => value.as_str(),
            None => None,
        }
    }

    /// The operation in full.
    pub fn description(&self) -> (text: Option<&'a str>)
        ensures
            match text {
                Some(text) => self@.text_member("description"@) == Some(text@),
                None => self@.text_member("description"@) is None,
            },
    {
        match self.node.get("description") {
            Some(value) => value.as_str(),
            None => None,
        }
    }

    /// Whether the operation is on its way out.
    pub fn deprecated(&self) -> (value: Option<bool>)
        ensures
            value == self@.truth_member("deprecated"@),
    {
        self.node.get_bool("deprecated")
    }

    /// The parameters of the operation, each with its pointer.
    pub fn request_parameters(&self) -> (children: Option<Vec<Child<'a>>>)
        ensures
            match children {
                Some(children) => self@.items_under("parameters"@) == Some(children.deep_view()),
                None => self@.items_under("parameters"@) is None,
            },
    {
        self.node.items_under("parameters")
    }

    /// The bodies that the operation takes, one for each content type.
    pub fn bodies(&self) -> (children: Option<Vec<Child<'a>>>)
        ensures
            match children {
                Some(children) => request_bodies(self@) == Some(children.deep_view()),
                None => request_bodies(self@) is None,
            },
    {
        match self.node.get("requestBody") {
            Some(request) => match request.get("content") {
                Some(content) => {
                    let prefix = extended(&pointer_to("requestBody"), "content".to_owned());
                    assert(prefix.deep_view() =~= seq!["requestBody"@, "content"@]);
                    content.object_children(&prefix)
                },
                None => None,
            },
            None => None,
        }
    }

    /// The answers of the operation, each with its pointer.
    pub fn operation_results(&self) -> (children: Option<Vec<Child<'a>>>)
        ensures
            match children {
                Some(children) => self@.members_under("responses"@) == Some(children.deep_view()),
                None => self@.members_under("responses"@) is None,
            },
    {
        self.node.members_under("responses")
    }

    /// The pointers to the bodies that the operation takes.
    pub fn body_pointers(&self) -> (pointers: Option<Vec<Vec<String>>>)
        ensures
            match pointers {
                Some(pointers) => request_bodies(self@) matches Some(children)
                    && pointers.deep_view() == children.map_values(|entry: EntryView| entry.pointer),
                None => request_bodies(self@) is None,
            },
    {
        match self.bodies() {
            Some(children) => Some(pointers_of(&children)),
            None => None,
        }
    }

    /// The pointers to the answers of the operation.
    pub fn operation_result_pointers(&self) -> (pointers: Option<Vec<Vec<String>>>)
        ensures
            match pointers {
                Some(pointers) => self@.members_under("responses"@) matches Some(children)
                    && pointers.deep_view() == children.map_values(|entry: EntryView| entry.pointer),
                None => self@.members_under("responses"@) is None,
            },
    {
        match self.operation_results() {
            Some(children) => Some(pointers_of(&children)),
            None => None,
        }
    }

    /// The pointers to the parameters that are carried in one part of the
    /// request.
    fn placed_pointers(&self, place: &str) -> (pointers: Option<Vec<Vec<String>>>)
        ensures
            match pointers {
                Some(pointers) => placed_parameter_pointers(self@, place@) == Some(
                    pointers.deep_view(),
                ),
                None => placed_parameter_pointers(self@, place@) is None,
            },
    {
        let entries = match self.request_parameters() {
            Some(entries) => entries,
            None => {
                return None;
            },
        };
        let mut pointers: Vec<Vec<String>> = Vec::new();
        let mut index: usize = 0;
        assert(pointers.deep_view() + placed_pointers_from(entries.deep_view(), place@, 0)
            =~= placed_pointers_from(entries.deep_view(), place@, 0));
        while index < entries.len()
            invariant
                index <= entries.len(),
                placed_pointers_from(entries.deep_view(), place@, 0) == pointers.deep_view()
                    + placed_pointers_from(entries.deep_view(), place@, index as int),
            decreases entries.len() - index,
        {
            let ghost done = pointers.deep_view();
            let ghost rest = placed_pointers_from(entries.deep_view(), place@, index + 1);
            let entry = &entries[index];
            assert(entry.deep_view() == entries.deep_view()[index as int]);
            let carried = match entry.node.get("in") {
                Some(value) => match value.as_str() {
                    Some(found) => same_text(found, place),
                    None => false,
                },
                None => false,
            };
            if carried {
                pointers.push(copy_pointer(&entry.pointer));
                assert(pointers.deep_view() =~= done.push(entry.pointer.deep_view()));
                assert(done.push(entry.pointer.deep_view()) + rest =~= done + (seq![
                    entry.pointer.deep_view(),
                ] + rest));
            }
            index += 1;
        }
        assert(pointers.deep_view() + Seq::<Seq<Seq<char>>>::empty() =~= pointers.deep_view());
        Some(pointers)
    }

    /// The pointers to the parameters that are carried in a cookie.
    pub fn cookie_parameter_pointers(&self) -> (pointers: Option<Vec<Vec<String>>>)
        ensures
            match pointers {
                Some(pointers) => placed_parameter_pointers(self@, "cookie"@) == Some(
                    pointers.deep_view(),
                ),
                None => placed_parameter_pointers(self@, "cookie"@) is None,
            },
    {
        self.placed_pointers("cookie")
    }

    /// The pointers to the parameters that are carried in a header.
    pub fn header_parameter_pointers(&self) -> (pointers: Option<Vec<Vec<String>>>)
        ensures
            match pointers {
                Some(pointers) => placed_parameter_pointers(self@, "header"@) == Some(
                    pointers.deep_view(),
                ),
                None => placed_parameter_pointers(self@, "header"@) is None,
            },
    {
        self.placed_pointers("header")
    }

    /// The pointers to the parameters that are carried in the path.
    pub fn path_parameter_pointers(&self) -> (pointers: Option<Vec<Vec<String>>>)
        ensures
            match pointers {
                Some(pointers) => placed_parameter_pointers(self@, "path"@) == Some(
                    pointers.deep_view(),
                ),
                None => placed_parameter_pointers(self@, "path"@) is None,
            },
    {
        self.placed_pointers("path")
    }

    /// The pointers to the parameters that are carried in the query.
    pub fn query_parameter_pointers(&self) -> (pointers: Option<Vec<Vec<String>>>)
        ensures
            match pointers {
                Some(pointers) => placed_parameter_pointers(self@, "query"@) == Some(
                    pointers.deep_view(),
                ),
                None => placed_parameter_pointers(self@, "query"@) is None,
            },
    {
        self.placed_pointers("query")
    }
}

} // verus!
