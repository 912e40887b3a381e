//! The generic tree that a document is parsed into.
use vstd::prelude::*;

verus! {

/// A parsed value: a scalar, an array of values, or an object whose members
/// are kept in the order of the document.
#[derive(Debug)]
pub enum Node {
    Null,
    Bool(bool),
    /// A number, in the digits that the document has for it.
    Number(String),
    String(String),
    Array(Vec<Node>),
    Object(Vec<Member>),
}

/// A member of an object: a name and the value under it.
#[derive(Debug)]
pub struct Member {
    pub name: String,
    pub value: Node,
}

/// What a member holds.
pub struct MemberView {
    pub name: Seq<char>,
    pub value: NodeView,
}

/// What a node holds, as a mathematical value.
pub enum NodeView {
    Null,
    Bool(bool),
    Number(Seq<char>),
    String(Seq<char>),
    Array(Seq<NodeView>),
    Object(Seq<MemberView>),
}

impl View for Member {
    type V = MemberView;

    open spec fn view(&self) -> MemberView {
        MemberView { name: self.name@, value: self.value@ }
    }
}

impl View for Node {
    type V = NodeView;

    open spec fn view(&self) -> NodeView
        decreases self,
    {
        match self {
            Node::Null => NodeView::Null,
            Node::Bool(value) => NodeView::Bool(*value),
            Node::Number(digits) => NodeView::Number(digits@),
            Node::String(text) => NodeView::String(text@),
            Node::Array(items) => NodeView::Array(
                Seq::new(
                    items.len() as nat,
                    |i: int|
                        if 0 <= i < items.len() {
                            items[i]@
                        } else {
                            NodeView::Null
                        },
                ),
            ),
            Node::Object(members) => NodeView::Object(
                Seq::new(
                    members.len() as nat,
                    |i: int|
                        if 0 <= i < members.len() {
                            MemberView { name: members[i].name@, value: members[i].value@ }
                        } else {
                            MemberView { name: Seq::empty(), value: NodeView::Null }
                        },
                ),
            ),
        }
    }
}

impl Node {
    /// The view of an array is the views of its items.
    pub proof fn lemma_array_view(items: Vec<Node>)
        ensures
            Node::Array(items)@ is Array,
            Node::Array(items)@->Array_0 == items@.map_values(|item: Node| item@),
    {
        assert(Node::Array(items)@->Array_0 =~= items@.map_values(|item: Node| item@));
    }

    /// The view of an object is the views of its members.
    pub proof fn lemma_object_view(members: Vec<Member>)
        ensures
            Node::Object(members)@ is Object,
            Node::Object(members)@->Object_0 == members@.map_values(|member: Member| member@),
    {
        assert(Node::Object(members)@->Object_0 =~= members@.map_values(|member: Member| member@));
    }
}

/// The value under the first member called `name` among the members from
/// `start` on.
pub open spec fn find_member(
    members: Seq<MemberView>,
    name: Seq<char>,
    start: int,
) -> Option<NodeView>
    decreases members.len() - start,
{
    if start < 0 || start >= members.len() {
        None
    } else if members[start].name == name {
        Some(members[start].value)
    } else {
        find_member(members, name, start + 1)
    }
}

impl NodeView {
    /// The value under `name`, where this is an object that has such a member.
    pub open spec fn member(self, name: Seq<char>) -> Option<NodeView> {
        match self {
            NodeView::Object(members) => find_member(members, name, 0),
            _ => None,
        }
    }

    /// The text of a string node.
    pub open spec fn text(self) -> Option<Seq<char>> {
        match self {
            NodeView::String(text) => Some(text),
            _ => None,
        }
    }

    /// The value of a boolean node.
    pub open spec fn truth(self) -> Option<bool> {
        match self {
            NodeView::Bool(value) => Some(value),
            _ => None,
        }
    }

    /// The text of the string member called `name`.
    pub open spec fn text_member(self, name: Seq<char>) -> Option<Seq<char>> {
        match self.member(name) {
            Some(value) => value.text(),
            None => None,
        }
    }

    /// The value of the boolean member called `name`.
    pub open spec fn truth_member(self, name: Seq<char>) -> Option<bool> {
        match self.member(name) {
            Some(value) => value.truth(),
            None => None,
        }
    }
}

/// Whether two strings hold the same characters. They do where their bytes
/// are the same, for the bytes of a string determine its characters.
pub fn same_text(left: &str, right: &str) -> (same: bool)
    ensures
        same == (left@ == right@),
{
    let ours = left.as_bytes();
    let theirs = right.as_bytes();
    proof {
        vstd::utf8::encode_utf8_decode_utf8(left@);
        vstd::utf8::encode_utf8_decode_utf8(right@);
    }
    if ours.len() != theirs.len() {
        return false;
    }
    let mut index: usize = 0;
    while index < ours.len()
        invariant
            index <= ours.len(),
            ours.len() == theirs.len(),
            ours@ == vstd::utf8::encode_utf8(left@),
            theirs@ == vstd::utf8::encode_utf8(right@),
            forall|i: int| 0 <= i < index ==> ours@[i] == theirs@[i],
        decreases ours.len() - index,
    {
        if ours[index] != theirs[index] {
            assert(vstd::utf8::encode_utf8(left@)[index as int] != vstd::utf8::encode_utf8(right@)[index as int]);
            return false;
        }
        index += 1;
    }
    assert(vstd::utf8::encode_utf8(left@) =~= vstd::utf8::encode_utf8(right@));
    true
}

impl Node {
    /// Whether two nodes hold the same value.
    pub fn equals(&self, other: &Node) -> (same: bool)
        ensures
            same == (self@ == other@),
        decreases self,
    {
        match (self, other) {
            (Node::Null, Node::Null) => true,
            (Node::Bool(left), Node::Bool(right)) => *left == *right,
            (Node::Number(left), Node::Number(right)) => *left == *right,
            (Node::String(left), Node::String(right)) => *left == *right,
            (Node::Array(left), Node::Array(right)) => {
                proof {
                    Self::lemma_array_view(*left);
                    Self::lemma_array_view(*right);
                }
                if left.len() != right.len() {
                    assert(self@->Array_0.len() != other@->Array_0.len());
                    return false;
                }
                let mut index: usize = 0;
                while index < left.len()
                    invariant
                        self is Array,
                        self->Array_0 == *left,
                        left.len() == right.len(),
                        index <= left.len(),
                        forall|i: int| 0 <= i < index ==> left[i]@ == right[i]@,
                        self@->Array_0 == left@.map_values(|item: Node| item@),
                        other@->Array_0 == right@.map_values(|item: Node| item@),
                    decreases left.len() - index,
                {
                    assert(decreases_to!(*left => left[index as int]));
                    if !left[index].equals(&right[index]) {
                        assert(self@->Array_0[index as int] != other@->Array_0[index as int]);
                        return false;
                    }
                    index += 1;
                }
                assert(self@->Array_0 =~= other@->Array_0);
                true
            },
            (Node::Object(left), Node::Object(right)) => {
                proof {
                    Self::lemma_object_view(*left);
                    Self::lemma_object_view(*right);
                }
                if left.len() != right.len() {
                    assert(self@->Object_0.len() != other@->Object_0.len());
                    return false;
                }
                let mut index: usize = 0;
                while index < left.len()
                    invariant
                        self is Object,
                        self->Object_0 == *left,
                        left.len() == right.len(),
                        index <= left.len(),
                        forall|i: int| 0 <= i < index ==> left[i]@ == right[i]@,
                        self@->Object_0 == left@.map_values(|member: Member| member@),
                        other@->Object_0 == right@.map_values(|member: Member| member@),
                    decreases left.len() - index,
                {
                    assert(decreases_to!(*left => left[index as int]));
                    if left[index].name != right[index].name || !left[index].value.equals(
                        &right[index].value,
                    ) {
                        assert(self@->Object_0[index as int] != other@->Object_0[index as int]);
                        return false;
                    }
                    index += 1;
                }
                assert(self@->Object_0 =~= other@->Object_0);
                true
            },
            _ => false,
        }
    }

    /// A copy of this node and of all that lies below it.
    pub fn duplicate(&self) -> (copy: Node)
        ensures
            copy@ == self@,
        decreases self,
    {
        match self {
            Node::Null => Node::Null,
            Node::Bool(value) => Node::Bool(*value),
            Node::Number(digits) => Node::Number(digits.clone()),
            Node::String(text) => Node::String(text.clone()),
            Node::Array(items) => {
                let mut copies: Vec<Node> = Vec::new();
                let mut index: usize = 0;
                while index < items.len()
                    invariant
                        self is Array,
                        self->Array_0 == *items,
                        index <= items.len(),
                        copies.len() == index,
                        forall|i: int| 0 <= i < index ==> copies[i]@ == items[i]@,
                    decreases items.len() - index,
                {
                    assert(decreases_to!(*items => items[index as int]));
                    let item = items[index].duplicate();
                    copies.push(item);
                    index += 1;
                }
                let copy = Node::Array(copies);
                proof {
                    Self::lemma_array_view(*items);
                    Self::lemma_array_view(copies);
                    assert(copy@->Array_0 =~= self@->Array_0);
                }
                copy
            },
            Node::Object(members) => {
                let mut copies: Vec<Member> = Vec::new();
                let mut index: usize = 0;
                while index < members.len()
                    invariant
                        self is Object,
                        self->Object_0 == *members,
                        index <= members.len(),
                        copies.len() == index,
                        forall|i: int| 0 <= i < index ==> copies[i]@ == members[i]@,
                    decreases members.len() - index,
                {
                    assert(decreases_to!(*members => members[index as int]));
                    let value = members[index].value.duplicate();
                    copies.push(Member { name: members[index].name.clone(), value });
                    index += 1;
                }
                let copy = Node::Object(copies);
                proof {
                    Self::lemma_object_view(*members);
                    Self::lemma_object_view(copies);
                    assert(copy@->Object_0 =~= self@->Object_0);
                }
                copy
            },
        }
    }

    /// The value under `name`, where this is an object that has such a member.
    pub fn get(&self, name: &str) -> (value: Option<&Node>)
        ensures
            match value {
                Some(node) => self@.member(name@) == Some(node@),
                None => self@.member(name@) is None,
            },
    {
        match self {
            Node::Object(members) => {
                proof {
                    Self::lemma_object_view(*members);
                }
                let mut index: usize = 0;
                while index < members.len()
                    invariant
                        index <= members.len(),
                        self@ is Object,
                        self@->Object_0 == members@.map_values(|member: Member| member@),
                        find_member(self@->Object_0, name@, 0) == find_member(
                            self@->Object_0,
                            name@,
                            index as int,
                        ),
                    decreases members.len() - index,
                {
                    if same_text(members[index].name.as_str(), name) {
                        return Some(&members[index].value);
                    }
                    index += 1;
                }
                None
            },
            _ => None,
        }
    }

    /// The text of a string node.
    pub fn as_str(&self) -> (text: Option<&str>)
        ensures
            match text {
                Some(text) => self@.text() == Some(text@),
                None => self@.text() is None,
            },
    {
        match self {
            Node::String(text) => Some(text.as_str()),
            _ => None,
        }
    }

    /// The value of a boolean node.
    pub fn as_bool(&self) -> (value: Option<bool>)
        ensures
            value == self@.truth(),
    {
        match self {
            Node::Bool(value) => Some(*value),
            _ => None,
        }
    }

    /// The text of the string member called `name`, copied.
    pub fn get_string(&self, name: &str) -> (text: Option<String>)
        ensures
            match text {
                Some(text) => self@.text_member(name@) == Some(text@),
                None => self@.text_member(name@) is None,
            },
    {
        match self.get(name) {
            Some(value) => match value.as_str() {
                Some(text) => Some(text.to_owned()),
                None => None,
            },
            None => None,
        }
    }

    /// The value of the boolean member called `name`.
    pub fn get_bool(&self, name: &str) -> (value: Option<bool>)
        ensures
            value == self@.truth_member(name@),
    {
        match self.get(name) {
            Some(value) => value.as_bool(),
            None => None,
        }
    }
}

impl PartialEq for Node {
    fn eq(&self, other: &Self) -> (same: bool) {
        self.equals(other)
    }
}

impl vstd::std_specs::cmp::PartialEqSpecImpl for Node {
    open spec fn obeys_eq_spec() -> bool {
        true
    }

    open spec fn eq_spec(&self, other: &Self) -> bool {
        self@ == other@
    }
}

impl Clone for Node {
    fn clone(&self) -> (copy: Self)
        ensures
            copy@ == self@,
    {
        self.duplicate()
    }
}

/// The character for a digit below ten.
pub open spec fn digit_char(digit: nat) -> char {
    if digit == 0 {
        '0'
    } else if digit == 1 {
        '1'
    } else if digit == 2 {
        '2'
    } else if digit == 3 {
        '3'
    } else if digit == 4 {
        '4'
    } else if digit == 5 {
        '5'
    } else if digit == 6 {
        '6'
    } else if digit == 7 {
        '7'
    } else if digit == 8 {
        '8'
    } else {
        '9'
    }
}

/// A number written in decimal digits, without leading zeros.
pub open spec fn decimal_digits(value: nat) -> Seq<char>
    decreases value,
{
    if value < 10 {
        seq![digit_char(value)]
    } else {
        decimal_digits(value / 10).push(digit_char(value % 10))
    }
}

/// The one-character string for a digit below ten.
fn digit_text(digit: usize) -> (text: &'static str)
    requires
        digit < 10,
    ensures
        text@ == seq![digit_char(digit as nat)],
{
    proof {
        reveal_strlit("0");
        reveal_strlit("1");
        reveal_strlit("2");
        reveal_strlit("3");
        reveal_strlit("4");
        reveal_strlit("5");
        reveal_strlit("6");
        reveal_strlit("7");
        reveal_strlit("8");
        reveal_strlit("9");
    }
    let text = if digit == 0 {
        "0"
    } else if digit == 1 {
        "1"
    } else if digit == 2 {
        "2"
    } else if digit == 3 {
        "3"
    } else if digit == 4 {
        "4"
    } else if digit == 5 {
        "5"
    } else if digit == 6 {
        "6"
    } else if digit == 7 {
        "7"
    } else if digit == 8 {
        "8"
    } else {
        "9"
    };
    assert(text@ =~= seq![digit_char(digit as nat)]);
    text
}

/// Writes an index the way a pointer names the items of an array.
pub fn decimal(value: usize) -> (text: String)
    ensures
        text@ == decimal_digits(value as nat),
    decreases value,
{
    if value < 10 {
        digit_text(value).to_owned()
    } else {
        let mut text = decimal(value / 10);
        text.append(digit_text(value % 10));
        text
    }
}

/// A node together with the pointer that leads to it.
pub struct EntryView {
    pub pointer: Seq<Seq<char>>,
    pub node: NodeView,
}

/// The nodes of a tree in document order, each with its pointer: the node
/// itself under `prefix`, then what lies below each child in turn.
pub open spec fn tree_entries(prefix: Seq<Seq<char>>, node: NodeView) -> Seq<EntryView>
    decreases node, 0nat,
{
    let root = seq![EntryView { pointer: prefix, node }];
    match node {
        NodeView::Array(items) => root + item_entries(prefix, items, items.len()),
        NodeView::Object(members) => root + member_entries(prefix, members, members.len()),
        _ => root,
    }
}

/// The entries below the first `count` items of an array.
pub open spec fn item_entries(
    prefix: Seq<Seq<char>>,
    items: Seq<NodeView>,
    count: nat,
) -> Seq<EntryView>
    decreases items, count,
{
    if count == 0 || count > items.len() {
        Seq::empty()
    } else {
        item_entries(prefix, items, (count - 1) as nat) + tree_entries(
            prefix.push(decimal_digits((count - 1) as nat)),
            items[count - 1],
        )
    }
}

/// The entries below the first `count` members of an object.
pub open spec fn member_entries(
    prefix: Seq<Seq<char>>,
    members: Seq<MemberView>,
    count: nat,
) -> Seq<EntryView>
    decreases members, count,
{
    if count == 0 || count > members.len() {
        Seq::empty()
    } else {
        member_entries(prefix, members, (count - 1) as nat) + tree_entries(
            prefix.push(members[count - 1].name),
            members[count - 1].value,
        )
    }
}

/// A child of a node: the node below, and the pointer that leads to it.
pub struct Child<'a> {
    pub pointer: Vec<String>,
    pub node: &'a Node,
}

impl<'a> DeepView for Child<'a> {
    type V = EntryView;

    open spec fn deep_view(&self) -> EntryView {
        EntryView { pointer: self.pointer.deep_view(), node: self.node@ }
    }
}

/// A copy of a pointer with one more segment at its end.
pub fn extended(prefix: &Vec<String>, segment: String) -> (pointer: Vec<String>)
    ensures
        pointer.deep_view() == prefix.deep_view().push(segment@),
{
    let mut pointer: Vec<String> = Vec::new();
    let mut index: usize = 0;
    while index < prefix.len()
        invariant
            index <= prefix.len(),
            pointer.len() == index,
            forall|i: int| 0 <= i < index ==> pointer[i]@ == prefix[i]@,
        decreases prefix.len() - index,
    {
        pointer.push(prefix[index].clone());
        index += 1;
    }
    pointer.push(segment);
    assert(pointer.deep_view() =~= prefix.deep_view().push(segment@));
    pointer
}

/// Appends to `entries` the nodes of a tree in document order, each with its
/// pointer.
pub fn collect_entries<'a>(prefix: Vec<String>, node: &'a Node, entries: &mut Vec<Child<'a>>)
    ensures
        final(entries).deep_view() == old(entries).deep_view() + tree_entries(prefix.deep_view(), node@),
    decreases node,
{
    let ghost before = entries.deep_view();
    let ghost path = prefix.deep_view();
    let ghost root = EntryView { pointer: path, node: node@ };
    match node {
        Node::Array(items) => {
            proof {
                Node::lemma_array_view(*items);
            }
            let mut index: usize = 0;
            entries.push(Child { pointer: copy_pointer(&prefix), node });
            assert(entries.deep_view() =~= before + seq![root]);
            while index < items.len()
                invariant
                    node is Array,
                    node->Array_0 == *items,
                    node@ is Array,
                    node@->Array_0 == items@.map_values(|item: Node| item@),
                    index <= items.len(),
                    path == prefix.deep_view(),
                    entries.deep_view() == before + seq![root] + item_entries(
                        path,
                        node@->Array_0,
                        index as nat,
                    ),
                decreases items.len() - index,
            {
                assert(decreases_to!(*items => items[index as int]));
                collect_entries(extended(&prefix, decimal(index)), &items[index], entries);
                index += 1;
                assert(entries.deep_view() =~= before + seq![root] + item_entries(
                    path,
                    node@->Array_0,
                    index as nat,
                ));
            }
            assert(entries.deep_view() =~= before + tree_entries(path, node@));
        },
        Node::Object(members) => {
            proof {
                Node::lemma_object_view(*members);
            }
            let mut index: usize = 0;
            entries.push(Child { pointer: copy_pointer(&prefix), node });
            assert(entries.deep_view() =~= before + seq![root]);
            while index < members.len()
                invariant
                    node is Object,
                    node->Object_0 == *members,
                    node@ is Object,
                    node@->Object_0 == members@.map_values(|member: Member| member@),
                    index <= members.len(),
                    path == prefix.deep_view(),
                    entries.deep_view() == before + seq![root] + member_entries(
                        path,
                        node@->Object_0,
                        index as nat,
                    ),
                decreases members.len() - index,
            {
                assert(decreases_to!(*members => members[index as int]));
                collect_entries(
                    extended(&prefix, members[index].name.clone()),
                    &members[index].value,
                    entries,
                );
                index += 1;
                assert(entries.deep_view() =~= before + seq![root] + member_entries(
                    path,
                    node@->Object_0,
                    index as nat,
                ));
            }
            assert(entries.deep_view() =~= before + tree_entries(path, node@));
        },
        _ => {
            entries.push(Child { pointer: prefix, node });
            assert(entries.deep_view() =~= before + tree_entries(path, node@));
        },
    }
}

/// A copy of a pointer.
pub fn copy_pointer(pointer: &Vec<String>) -> (copy: Vec<String>)
    ensures
        copy.deep_view() == pointer.deep_view(),
{
    let mut copy: Vec<String> = Vec::new();
    let mut index: usize = 0;
    while index < pointer.len()
        invariant
            index <= pointer.len(),
            copy.len() == index,
            forall|i: int| 0 <= i < index ==> copy[i]@ == pointer[i]@,
        decreases pointer.len() - index,
    {
        copy.push(pointer[index].clone());
        index += 1;
    }
    assert(copy.deep_view() =~= pointer.deep_view());
    copy
}

/// The nodes of a tree in document order, each with its pointer below
/// `prefix`: the node itself, then what lies below each of its children.
pub fn read_node<'a>(prefix: &Vec<String>, node: &'a Node) -> (entries: Vec<Child<'a>>)
    ensures
        entries.deep_view() == tree_entries(prefix.deep_view(), node@),
{
    let mut entries: Vec<Child<'a>> = Vec::new();
    collect_entries(copy_pointer(prefix), node, &mut entries);
    assert(entries.deep_view() =~= tree_entries(prefix.deep_view(), node@));
    entries
}

impl NodeView {
    /// The members of an object, each with its name behind `prefix`.
    pub open spec fn object_children(self, prefix: Seq<Seq<char>>) -> Option<Seq<EntryView>> {
        match self {
            NodeView::Object(members) => Some(
                Seq::new(
                    members.len(),
                    |i: int| EntryView { pointer: prefix.push(members[i].name), node: members[i].value },
                ),
            ),
            _ => None,
        }
    }

    /// The items of an array, each with its index behind `prefix`.
    pub open spec fn array_children(self, prefix: Seq<Seq<char>>) -> Option<Seq<EntryView>> {
        match self {
            NodeView::Array(items) => Some(
                Seq::new(
                    items.len(),
                    |i: int| EntryView { pointer: prefix.push(decimal_digits(i as nat)), node: items[i] },
                ),
            ),
            _ => None,
        }
    }

    /// The members of the object under `name`, each with `name` and its own
    /// name for a pointer.
    pub open spec fn members_under(self, name: Seq<char>) -> Option<Seq<EntryView>> {
        match self.member(name) {
            Some(value) => value.object_children(seq![name]),
            None => None,
        }
    }

    /// The items of the array under `name`, each with `name` and its index
    /// for a pointer.
    pub open spec fn items_under(self, name: Seq<char>) -> Option<Seq<EntryView>> {
        match self.member(name) {
            Some(value) => value.array_children(seq![name]),
            None => None,
        }
    }
}

/// The entries of a list that may be missing.
pub open spec fn flattened(entries: Option<Seq<EntryView>>) -> Seq<EntryView> {
    match entries {
        Some(entries) => entries,
        None => Seq::empty(),
    }
}

/// A pointer of one segment.
pub fn pointer_to(name: &str) -> (pointer: Vec<String>)
    ensures
        pointer.deep_view() == seq![name@],
{
    let mut pointer: Vec<String> = Vec::new();
    pointer.push(name.to_owned());
    assert(pointer.deep_view() =~= seq![name@]);
    pointer
}

/// The pointers of a list of children.
pub fn pointers_of(children: &Vec<Child<'_>>) -> (pointers: Vec<Vec<String>>)
    ensures
        pointers.deep_view() == children.deep_view().map_values(|entry: EntryView| entry.pointer),
{
    let mut pointers: Vec<Vec<String>> = Vec::new();
    let mut index: usize = 0;
    while index < children.len()
        invariant
            index <= children.len(),
            pointers.len() == index,
            forall|i: int| 0 <= i < index ==> pointers[i].deep_view() == children[i].pointer.deep_view(),
        decreases children.len() - index,
    {
        pointers.push(copy_pointer(&children[index].pointer));
        index += 1;
    }
    assert(pointers.deep_view() =~= children.deep_view().map_values(
        |entry: EntryView| entry.pointer,
    ));
    pointers
}

impl Node {
    /// The members of an object, each with its name behind `prefix`.
    pub fn object_children(&self, prefix: &Vec<String>) -> (children: Option<Vec<Child<'_>>>)
        ensures
            match children {
                Some(children) => self@.object_children(prefix.deep_view()) == Some(
                    children.deep_view(),
                ),
                None => self@.object_children(prefix.deep_view()) is None,
            },
    {
        match self {
            Node::Object(members) => {
                proof {
                    Self::lemma_object_view(*members);
                }
                let mut children: Vec<Child<'_>> = Vec::new();
                let mut index: usize = 0;
                while index < members.len()
                    invariant
                        index <= members.len(),
                        children.len() == index,
                        forall|i: int|
                            0 <= i < index ==> (#[trigger] children[i]).deep_view() == (EntryView {
                                pointer: prefix.deep_view().push(members[i].name@),
                                node: members[i].value@,
                            }),
                    decreases members.len() - index,
                {
                    children.push(
                        Child {
                            pointer: extended(prefix, members[index].name.clone()),
                            node: &members[index].value,
                        },
                    );
                    index += 1;
                }
                assert(children.deep_view() =~= self@.object_children(prefix.deep_view())->0);
                Some(children)
            },
            _ => None,
        }
    }

    /// The items of an array, each with its index behind `prefix`.
    pub fn array_children(&self, prefix: &Vec<String>) -> (children: Option<Vec<Child<'_>>>)
        ensures
            match children {
                Some(children) => self@.array_children(prefix.deep_view()) == Some(
                    children.deep_view(),
                ),
                None => self@.array_children(prefix.deep_view()) is None,
            },
    {
        match self {
            Node::Array(items) => {
                proof {
                    Self::lemma_array_view(*items);
                }
                let mut children: Vec<Child<'_>> = Vec::new();
                let mut index: usize = 0;
                while index < items.len()
                    invariant
                        index <= items.len(),
                        children.len() == index,
                        forall|i: int|
                            0 <= i < index ==> (#[trigger] children[i]).deep_view() == (EntryView {
                                pointer: prefix.deep_view().push(decimal_digits(i as nat)),
                                node: items[i]@,
                            }),
                    decreases items.len() - index,
                {
                    children.push(
                        Child { pointer: extended(prefix, decimal(index)), node: &items[index] },
                    );
                    index += 1;
                }
                assert(children.deep_view() =~= self@.array_children(prefix.deep_view())->0);
                Some(children)
            },
            _ => None,
        }
    }

    /// The members of the object under `name`, each with `name` and its own
    /// name for a pointer.
    pub fn members_under(&self, name: &str) -> (children: Option<Vec<Child<'_>>>)
        ensures
            match children {
                Some(children) => self@.members_under(name@) == Some(children.deep_view()),
                None => self@.members_under(name@) is None,
            },
    {
        match self.get(name) {
            Some(value) => value.object_children(&pointer_to(name)),
            None => None,
        }
    }

    /// The items of the array under `name`, each with `name` and its index
    /// for a pointer.
    pub fn items_under(&self, name: &str) -> (children: Option<Vec<Child<'_>>>)
        ensures
            match children {
                Some(children) => self@.items_under(name@) == Some(children.deep_view()),
                None => self@.items_under(name@) is None,
            },
    {
        match self.get(name) {
            Some(value) => value.array_children(&pointer_to(name)),
            None => None,
        }
    }
}

} // verus!
