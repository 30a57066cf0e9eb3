//! Configuration documents: the tree that a YAML text stands for, and the
//! few ways in which the rest of the library looks into it.

use vstd::prelude::*;

verus! {

/// A node of a configuration document.
#[derive(Debug, PartialEq)]
pub enum Node {
    Null,
    Bool(bool),
    /// A number, by the text that stands for it.
    Number(String),
    Text(String),
    List(Vec<Node>),
    /// The entries of a mapping, in the order of the document.
    Table(Vec<(Node, Node)>),
    /// A node under a tag.
    Tagged(String, Box<Node>),
}

/// What a [`Node`] holds, as a mathematical value.
pub enum NodeView {
    Null,
    Bool(bool),
    Number(Seq<char>),
    Text(Seq<char>),
    List(Seq<NodeView>),
    Table(Seq<(NodeView, NodeView)>),
    Tagged(Seq<char>, Box<NodeView>),
}

/// The values of `serde_yaml`, as they come out of its parser.
#[verifier::external_type_specification]
#[verifier::external_body]
pub struct ExYamlValue(serde_yaml::Value);

/// The errors of `serde_yaml`.
#[verifier::external_type_specification]
#[verifier::external_body]
pub struct ExYamlError(serde_yaml::Error);

/// The document that `serde_yaml::from_slice` reads from `bytes`, if it
/// reads one.
pub uninterp spec fn yaml_document(bytes: Seq<u8>) -> Option<NodeView>;

/// Turns a value of `serde_yaml` into a node, variant by variant. A number
/// is kept as the text that `serde_yaml::Number` displays, a tag as the text
/// that `serde_yaml::value::Tag` displays.
///
/// Trusted: nothing is claimed of the result.
#[verifier::external_body]
fn node_of(value: &serde_yaml::Value) -> Node {
    match value {
        serde_yaml::Value::Null => Node::Null,
        serde_yaml::Value::Bool(flag) => Node::Bool(*flag),
        serde_yaml::Value::Number(number) => Node::Number(number.to_string()),
        serde_yaml::Value::String(text) => Node::Text(text.clone()),
        serde_yaml::Value::Sequence(items) => Node::List(items.iter().map(node_of).collect()),
        serde_yaml::Value::Mapping(entries) => Node::Table(
            entries.iter().map(|(key, value)| (node_of(key), node_of(value))).collect(),
        ),
        serde_yaml::Value::Tagged(tagged) => Node::Tagged(
            tagged.tag.to_string(),
            Box::new(node_of(&tagged.value)),
        ),
    }
}

/// Calls `serde_yaml::from_slice` for a `serde_yaml::Value` and hands the
/// document out as a node.
///
/// Trusted: whether the bytes are accepted, and the document that they give,
/// depend on the bytes alone.
#[verifier::external_body]
pub(crate) fn read_yaml(bytes: &[u8]) -> (read: Result<Node, serde_yaml::Error>)
    ensures
        read matches Ok(node) ==> yaml_document(bytes@) == Some(node@),
        read is Err ==> yaml_document(bytes@) is None,
{
    serde_yaml::from_slice::<serde_yaml::Value>(bytes).map(|value| node_of(&value))
}

/// The mathematical value of a node.
pub open spec fn node_view(node: Node) -> NodeView
    decreases node,
{
    match node {
        Node::Null => NodeView::Null,
        Node::Bool(flag) => NodeView::Bool(flag),
        Node::Number(text) => NodeView::Number(text@),
        Node::Text(text) => NodeView::Text(text@),
        Node::List(items) => NodeView::List(
            Seq::new(
                items@.len(),
                |i: int|
                    if 0 <= i < items@.len() {
                        node_view(items@[i])
                    } else {
                        NodeView::Null
                    },
            ),
        ),
        Node::Table(entries) => NodeView::Table(
            Seq::new(
                entries@.len(),
                |i: int|
                    if 0 <= i < entries@.len() {
                        (node_view(entries@[i].0), node_view(entries@[i].1))
                    } else {
                        (NodeView::Null, NodeView::Null)
                    },
            ),
        ),
        Node::Tagged(tag, inner) => NodeView::Tagged(tag@, Box::new(node_view(*inner))),
    }
}

impl View for Node {
    type V = NodeView;

    open spec fn view(&self) -> NodeView {
        node_view(*self)
    }
}

/// The mathematical values of a list of nodes.
pub open spec fn items_view(items: Seq<Node>) -> Seq<NodeView> {
    items.map_values(|node: Node| node@)
}

/// The mathematical values of the entries of a mapping.
pub open spec fn pairs_view(entries: Seq<(Node, Node)>) -> Seq<(NodeView, NodeView)> {
    entries.map_values(|pair: (Node, Node)| (pair.0@, pair.1@))
}

/// A sequence node holds the values of its items.
pub proof fn lemma_list_view(items: Vec<Node>)
    ensures
        Node::List(items)@ == NodeView::List(items_view(items@)),
{
    assert(Node::List(items)@->List_0 =~= items_view(items@));
}

/// A mapping node holds the values of its entries.
pub proof fn lemma_table_view(entries: Vec<(Node, Node)>)
    ensures
        Node::Table(entries)@ == NodeView::Table(pairs_view(entries@)),
{
    assert(Node::Table(entries)@->Table_0 =~= pairs_view(entries@));
}

/// The node under the tags of `node`, if it has any.
pub open spec fn untagged(node: NodeView) -> NodeView
    decreases node,
{
    match node {
        NodeView::Tagged(_, inner) => untagged(*inner),
        _ => node,
    }
}

/// The text of a node that, under its tags, is a string.
pub open spec fn text_of(node: NodeView) -> Option<Seq<char>> {
    match untagged(node) {
        NodeView::Text(text) => Some(text),
        _ => None,
    }
}

/// The value of a node that, under its tags, is a boolean.
pub open spec fn flag_of(node: NodeView) -> Option<bool> {
    match untagged(node) {
        NodeView::Bool(flag) => Some(flag),
        _ => None,
    }
}

/// The items of a node that, under its tags, is a sequence.
pub open spec fn list_of(node: NodeView) -> Option<Seq<NodeView>> {
    match untagged(node) {
        NodeView::List(items) => Some(items),
        _ => None,
    }
}

/// The entries of a node that, under its tags, is a mapping.
pub open spec fn table_of(node: NodeView) -> Option<Seq<(NodeView, NodeView)>> {
    match untagged(node) {
        NodeView::Table(entries) => Some(entries),
        _ => None,
    }
}

/// The value of the first entry from position `from` on whose key is the
/// plain string `key`.
pub open spec fn entry_from(entries: Seq<(NodeView, NodeView)>, key: Seq<char>, from: int) -> Option<
    NodeView,
>
    decreases entries.len() - from,
{
    if from < 0 || from >= entries.len() {
        None
    } else if entries[from].0 == NodeView::Text(key) {
        Some(entries[from].1)
    } else {
        entry_from(entries, key, from + 1)
    }
}

/// The value that a mapping gives to the plain string `key`.
pub open spec fn entry(entries: Seq<(NodeView, NodeView)>, key: Seq<char>) -> Option<NodeView> {
    entry_from(entries, key, 0)
}

/// Whether two strings hold the same text.
pub fn same_text(left: &str, right: &str) -> (same: bool)
    ensures
        same == (left@ == right@),
{
    let left = left.to_owned();
    let right = right.to_owned();
    left == right
}

/// The value that the entries of a mapping give to the plain string `key`.
pub fn find_entry<'a>(entries: &'a Vec<(Node, Node)>, key: &str) -> (found: Option<&'a Node>)
    ensures
        found is Some <==> entry(pairs_view(entries@), key@) is Some,
        found matches Some(node) ==> entry(pairs_view(entries@), key@) == Some(node@),
{
    let ghost all = pairs_view(entries@);
    let mut i: usize = 0;
    while i < entries.len()
        invariant
            i <= entries.len(),
            all == pairs_view(entries@),
            entry(all, key@) == entry_from(all, key@, i as int),
        decreases entries.len() - i,
    {
        if let Node::Text(text) = &entries[i].0 {
            if same_text(text.as_str(), key) {
                return Some(&entries[i].1);
            }
        }
        i += 1;
    }
    None
}

impl Node {
    /// The node under the tags of this one, if it has any.
    pub fn untagged(&self) -> (inner: &Node)
        ensures
            inner@ == untagged(self@),
            !(inner is Tagged),
        decreases self,
    {
        match self {
            Node::Tagged(_, inner) => inner.untagged(),
            _ => self,
        }
    }

    /// The text of a node that, under its tags, is a string.
    pub fn as_text(&self) -> (text: Option<&str>)
        ensures
            text is Some <==> text_of(self@) is Some,
            text matches Some(t) ==> text_of(self@) == Some(t@),
    {
        match self.untagged() {
            Node::Text(text) => Some(text.as_str()),
            _ => None,
        }
    }

    /// The value of a node that, under its tags, is a boolean.
    pub fn as_flag(&self) -> (flag: Option<bool>)
        ensures
            flag == flag_of(self@),
    {
        match self.untagged() {
            Node::Bool(flag) => Some(*flag),
            _ => None,
        }
    }

    /// The items of a node that, under its tags, is a sequence.
    pub fn as_list(&self) -> (items: Option<&Vec<Node>>)
        ensures
            items is Some <==> list_of(self@) is Some,
            items matches Some(v) ==> list_of(self@) == Some(items_view(v@)),
    {
        match self.untagged() {
            Node::List(items) => {
                proof {
                    lemma_list_view(*items);
                }
                Some(items)
            },
            _ => None,
        }
    }

    /// The entries of a node that, under its tags, is a mapping.
    pub fn as_table(&self) -> (entries: Option<&Vec<(Node, Node)>>)
        ensures
            entries is Some <==> table_of(self@) is Some,
            entries matches Some(v) ==> table_of(self@) == Some(pairs_view(v@)),
    {
        match self.untagged() {
            Node::Table(entries) => {
                proof {
                    lemma_table_view(*entries);
                }
                Some(entries)
            },
            _ => None,
        }
    }
}

} // verus!
