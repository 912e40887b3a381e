//! The reading of the text of a document into a tree of nodes.
//!
//! The text is read by `serde_yaml`, which also reads JSON, into a value of
//! `serde_json`. Nothing is proved of either crate: what `serde_yaml` makes
//! of a text has a name, and a value of `serde_json` is taken apart one level
//! at a time by a function that is believed as it stands. The tree of nodes
//! is built from that by verified code.
use super::node::{Member, MemberView, Node, NodeView};
use crate::error::DocumentError;
use vstd::prelude::*;

verus! {

/// The tree of `serde_json`, as `serde_yaml` fills it.
#[verifier::external_type_specification]
#[verifier::external_body]
pub struct ExValue(serde_json::Value);

/// The error that `serde_yaml` gives for a text that it cannot read.
#[verifier::external_type_specification]
#[verifier::external_body]
pub struct ExYamlError(serde_yaml::Error);

/// What `serde_yaml` reads from a text: the tree, or `None` where it refuses
/// the text.
pub uninterp spec fn parsed_document(text: Seq<char>) -> Option<NodeView>;

/// What a value of `serde_json` holds: the variant of the same name for each
/// of its variants, a number in its digits, and the members of an object in
/// the order in which `serde_json` hands them out.
pub uninterp spec fn value_tree(value: serde_json::Value) -> NodeView;

/// A member of an object of `serde_json`.
pub struct ValueMember {
    pub name: String,
    pub value: serde_json::Value,
}

/// A value of `serde_json`, taken apart by one level.
pub enum ValueParts {
    Null,
    Bool(bool),
    Number(String),
    String(String),
    Array(Vec<serde_json::Value>),
    Object(Vec<ValueMember>),
}

/// What the parts of a value hold, by the trees of the values below.
pub open spec fn parts_tree(parts: ValueParts) -> NodeView {
    match parts {
        ValueParts::Null => NodeView::Null,
        ValueParts::Bool(value) => NodeView::Bool(value),
        ValueParts::Number(digits) => NodeView::Number(digits@),
        ValueParts::String(text) => NodeView::String(text@),
        ValueParts::Array(items) => NodeView::Array(
            items@.map_values(|item: serde_json::Value| value_tree(item)),
        ),
        ValueParts::Object(members) => NodeView::Object(
            members@.map_values(
                |member: ValueMember|
                    MemberView { name: member.name@, value: value_tree(member.value) },
            ),
        ),
    }
}

/// `serde_yaml::from_str` into a value of `serde_json`: the tree that a text
/// describes. The result is a function of the text alone.
#[verifier::external_body]
fn inner_parse_value(text: &str) -> (result: Result<serde_json::Value, serde_yaml::Error>)
    ensures
        match result {
            Ok(value) => parsed_document(text@) == Some(value_tree(value)),
            Err(_) => parsed_document(text@) is None,
        },
{
    serde_yaml::from_str::<serde_json::Value>(text)
}

/// The variants of `serde_json::Value`, one level deep: each variant gives
/// the part of the same name with what it holds, a number is written with
/// `to_string`, and the members of an object come in the order of its
/// iterator.
#[verifier::external_body]
fn inner_parts(value: serde_json::Value) -> (parts: ValueParts)
    ensures
        value_tree(value) == parts_tree(parts),
{
    match value {
        serde_json::Value::Null => ValueParts::Null,
        serde_json::Value::Bool(value) => ValueParts::Bool(value),
        serde_json::Value::Number(number) => ValueParts::Number(number.to_string()),
        serde_json::Value::String(text) => ValueParts::String(text),
        serde_json::Value::Array(items) => ValueParts::Array(items),
        serde_json::Value::Object(members) => ValueParts::Object(
            members.into_iter().map(|(name, value)| ValueMember { name, value }).collect(),
        ),
    }
}

/// The node for a value of `serde_json`.
pub fn node_of_value(value: serde_json::Value) -> (node: Node)
    ensures
        node@ == value_tree(value),
    decreases value_tree(value),
{
    match inner_parts(value) {
        ValueParts::Null => Node::Null,
        ValueParts::Bool(value) => Node::Bool(value),
        ValueParts::Number(digits) => Node::Number(digits),
        ValueParts::String(text) => Node::String(text),
        ValueParts::Array(items) => {
            let ghost trees = items@.map_values(|item: serde_json::Value| value_tree(item));
            let mut items = items;
            let mut reversed: Vec<Node> = Vec::new();
            while items.len() > 0
                invariant
                    value_tree(value) is Array,
                    value_tree(value)->Array_0 == trees,
                    items.len() + reversed.len() == trees.len(),
                    forall|i: int| 0 <= i < items.len() ==> value_tree(#[trigger] items[i]) == trees[i],
                    forall|i: int|
                        0 <= i < reversed.len() ==> (#[trigger] reversed[i])@ == trees[trees.len() - 1
                            - i],
                decreases items.len(),
            {
                let item = items.pop().unwrap();
                assert(value_tree(item) == trees[items.len() as int]);
                assert(decreases_to!(trees => trees[items.len() as int]));
                let node = node_of_value(item);
                reversed.push(node);
            }
            let mut nodes: Vec<Node> = Vec::new();
            while reversed.len() > 0
                invariant
                    nodes.len() + reversed.len() == trees.len(),
                    forall|i: int| 0 <= i < nodes.len() ==> (#[trigger] nodes[i])@ == trees[i],
                    forall|i: int|
                        0 <= i < reversed.len() ==> (#[trigger] reversed[i])@ == trees[trees.len() - 1
                            - i],
                decreases reversed.len(),
            {
                let node = reversed.pop().unwrap();
                nodes.push(node);
            }
            proof {
                Node::lemma_array_view(nodes);
                assert(Node::Array(nodes)@->Array_0 =~= trees);
            }
            Node::Array(nodes)
        },
        ValueParts::Object(members) => {
            let ghost trees = members@.map_values(
                |member: ValueMember|
                    MemberView { name: member.name@, value: value_tree(member.value) },
            );
            let mut members = members;
            let mut reversed: Vec<Member> = Vec::new();
            while members.len() > 0
                invariant
                    value_tree(value) is Object,
                    value_tree(value)->Object_0 == trees,
                    members.len() + reversed.len() == trees.len(),
                    forall|i: int|
                        0 <= i < members.len() ==> (MemberView {
                            name: (#[trigger] members[i]).name@,
                            value: value_tree(members[i].value),
                        }) == trees[i],
                    forall|i: int|
                        0 <= i < reversed.len() ==> (#[trigger] reversed[i])@ == trees[trees.len() - 1
                            - i],
                decreases members.len(),
            {
                let member = members.pop().unwrap();
                assert(value_tree(member.value) == trees[members.len() as int].value);
                assert(decreases_to!(trees => trees[members.len() as int]));
                let node = node_of_value(member.value);
                reversed.push(Member { name: member.name, value: node });
            }
            let mut nodes: Vec<Member> = Vec::new();
            while reversed.len() > 0
                invariant
                    nodes.len() + reversed.len() == trees.len(),
                    forall|i: int| 0 <= i < nodes.len() ==> (#[trigger] nodes[i])@ == trees[i],
                    forall|i: int|
                        0 <= i < reversed.len() ==> (#[trigger] reversed[i])@ == trees[trees.len() - 1
                            - i],
                decreases reversed.len(),
            {
                let node = reversed.pop().unwrap();
                nodes.push(node);
            }
            proof {
                Node::lemma_object_view(nodes);
                assert(Node::Object(nodes)@->Object_0 =~= trees);
            }
            Node::Object(nodes)
        },
    }
}

/// Reads the text of a document, in YAML or in JSON.
pub fn parse_document(text: &str) -> (result: Result<Node, DocumentError>)
    ensures
        match parsed_document(text@) {
            Some(tree) => result matches Ok(node) && node@ == tree,
            None => result matches Err(error) && error == DocumentError::InvalidDocument,
        },
{
    match inner_parse_value(text) {
        Ok(value) => Ok(node_of_value(value)),
        Err(_) => Err(DocumentError::InvalidDocument),
    }
}

} // verus!
