use crate::models::method::{method_of, Method};
use crate::utils::node::{pointers_of, Child, EntryView, MemberView, Node, NodeView};
use vstd::prelude::*;

verus! {

/// The operations among the first `count` members of a path: the members
/// whose name is a method, each with that name for a pointer.
pub open spec fn operation_entries(members: Seq<MemberView>, count: nat) -> Seq<EntryView>
    decreases count,
{
    if count == 0 || count > members.len() {
        Seq::empty()
    } else {
        let before = operation_entries(members, (count - 1) as nat);
        let member = members[count - 1];
        if method_of(member.name) is Some {
            before.push(EntryView { pointer: seq![member.name], node: member.value })
        } else {
            before
        }
    }
}

/// The operations of a path.
pub open spec fn path_operations(node: NodeView) -> Option<Seq<EntryView>> {
    match node {
        NodeView::Object(members) => Some(operation_entries(members, members.len())),
        _ => None,
    }
}

/// One path of an API.
#[derive(Clone, Copy)]
pub struct Path<'a> {
    node: &'a Node,
}

impl<'a> View for Path<'a> {
    type V = NodeView;

    open spec fn view(&self) -> NodeView {
        self.node()@
    }
}

impl<'a> Path<'a> {
    /// The node that is read.
    pub closed spec fn node(&self) -> &'a Node {
        self.node
    }

    /// Reads a node as this kind of node.
    pub fn new(node: &'a Node) -> (read: Self)
        ensures
            read@ == node@,
    {
        Path { node }
    }

    /// The operations of the path: the members whose name is a method.
    pub fn operations(&self) -> (children: Option<Vec<Child<'a>>>)
        ensures
            match children {
                Some(children) => path_operations(self@) == Some(children.deep_view()),
                None => path_operations(self@) is None,
            },
    {
        let root: Vec<String> = Vec::new();
        assert(root.deep_view() =~= Seq::<Seq<char>>::empty());
        match self.node.object_children(&root) {
            Some(members) => {
                let ghost all = self@->Object_0;
                let mut children: Vec<Child<'a>> = Vec::new();
                let mut members = members;
                let mut rest: Vec<Child<'a>> = Vec::new();
                let ghost views = members.deep_view();
                while members.len() > 0
                    invariant
                        members.deep_view() + rest.deep_view().reverse() == views,
                    decreases members.len(),
                {
                    let ghost front = members.deep_view();
                    let ghost back = rest.deep_view();
                    let member = members.pop().unwrap();
                    rest.push(member);
                    assert(members.deep_view() =~= front.drop_last());
                    assert(rest.deep_view() =~= back.push(front.last()));
                    assert(members.deep_view() + rest.deep_view().reverse() =~= front + back.reverse());
                }
                assert(rest.deep_view().reverse() =~= views);
                let mut count: usize = 0;
                while rest.len() > 0
                    invariant
                        self@ is Object,
                        all == self@->Object_0,
                        views.len() == all.len(),
                        forall|i: int|
                            0 <= i < all.len() ==> (#[trigger] views[i]) == (EntryView {
                                pointer: Seq::<Seq<char>>::empty().push(all[i].name),
                                node: all[i].value,
                            }),
                        count + rest.len() == views.len(),
                        forall|i: int|
                            0 <= i < rest.len() ==> (#[trigger] rest.deep_view()[i]) == views[views.len()
                                - 1 - i],
                        children.deep_view() == operation_entries(all, count as nat),
                    decreases rest.len(),
                {
                    let ghost before = rest.deep_view();
                    let ghost found = children.deep_view();
                    let member = rest.pop().unwrap();
                    assert(member.deep_view() == before[before.len() - 1]);
                    assert(rest.deep_view() =~= before.drop_last());
                    assert(member.pointer.deep_view() =~= seq![all[count as int].name]);
                    assert(member.pointer.len() == 1);
                    assert(member.pointer.deep_view()[0] == member.pointer[0].deep_view());
                    assert(member.pointer[0]@ == all[count as int].name);
                    if Method::from_key(member.pointer[0].as_str()).is_some() {
                        children.push(member);
                        assert(children.deep_view() =~= found.push(
                            EntryView { pointer: seq![all[count as int].name], node: all[count as int].value },
                        ));
                    }
                    count += 1;
                }
                Some(children)
            },
            None => None,
        }
    }

    /// The parameters that all operations of the path share, each with its pointer.
    pub fn request_parameters(&self) -> (children: Option<Vec<Child<'a>>>)
        ensures
            match children {
                Some(children) => self@.items_under("parameters"@) == Some(children.deep_view()),
                None => self@.items_under("parameters"@) is None,
            },
    {
        self.node.items_under("parameters")
    }

    /// The pointers to the operations of the path.
    pub fn operation_pointers(&self) -> (pointers: Option<Vec<Vec<String>>>)
        ensures
            match pointers {
                Some(pointers) => path_operations(self@) matches Some(children)
                    && pointers.deep_view() == children.map_values(|entry: EntryView| entry.pointer),
                None => path_operations(self@) is None,
            },
    {
        match self.operations() {
            Some(children) => Some(pointers_of(&children)),
            None => None,
        }
    }

    /// The pointers to the parameters of the path.
    pub fn parameter_pointers(&self) -> (pointers: Option<Vec<Vec<String>>>)
        ensures
            match pointers {
                Some(pointers) => self@.items_under("parameters"@) matches Some(children)
                    && pointers.deep_view() == children.map_values(|entry: EntryView| entry.pointer),
                None => self@.items_under("parameters"@) is None,
            },
    {
        match self.request_parameters() {
            Some(children) => Some(pointers_of(&children)),
            None => None,
        }
    }
}

} // verus!
