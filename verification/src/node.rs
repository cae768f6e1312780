//! The document tree and its mathematical value.

use crate::mapping::{lookup, lookup_entry};
use vstd::prelude::*;

verus! {

/// A number of a document: an integer kept exactly, or a real number.
#[derive(Debug, PartialEq, Eq)]
pub enum Number {
    /// A non-negative integer.
    Unsigned(u64),
    /// A signed integer; parsers use it for negative ones only.
    Signed(i64),
    /// A real number, in its written form.
    Real(String),
}

/// The mathematical value of a [`Number`].
pub ghost enum NumberView {
    Unsigned(u64),
    Signed(i64),
    Real(Seq<char>),
}

impl View for Number {
    type V = NumberView;

    open spec fn view(&self) -> NumberView {
        match self {
            Number::Unsigned(n) => NumberView::Unsigned(*n),
            Number::Signed(i) => NumberView::Signed(*i),
            Number::Real(text) => NumberView::Real(text@),
        }
    }
}

impl NumberView {
    /// The number as a non-negative integer, where it is one.
    pub open spec fn unsigned(self) -> Option<u64> {
        match self {
            NumberView::Unsigned(n) => Some(n),
            NumberView::Signed(i) => if i >= 0 {
                Some(i as u64)
            } else {
                None
            },
            NumberView::Real(_) => None,
        }
    }

    /// The number as a signed integer, where it is one that fits.
    pub open spec fn signed(self) -> Option<i64> {
        match self {
            NumberView::Unsigned(n) => if n <= i64::MAX as u64 {
                Some(n as i64)
            } else {
                None
            },
            NumberView::Signed(i) => Some(i),
            NumberView::Real(_) => None,
        }
    }
}

impl Number {
    /// The number as a non-negative integer, where it is one.
    pub fn as_u64(&self) -> (value: Option<u64>)
        ensures
            value == self@.unsigned(),
    {
        match self {
            Number::Unsigned(n) => Some(*n),
            Number::Signed(i) => if *i >= 0 {
                Some(*i as u64)
            } else {
                None
            },
            Number::Real(_) => None,
        }
    }

    /// The number as a signed integer, where it is one that fits.
    pub fn as_i64(&self) -> (value: Option<i64>)
        ensures
            value == self@.signed(),
    {
        match self {
            Number::Unsigned(n) => if *n <= i64::MAX as u64 {
                Some(*n as i64)
            } else {
                None
            },
            Number::Signed(i) => Some(*i),
            Number::Real(_) => None,
        }
    }
}

/// One key of a mapping with its value.
#[derive(Debug, PartialEq, Eq)]
pub struct Entry {
    pub key: GenericNode,
    pub value: GenericNode,
}

/// A self-describing document tree: the parsed input of the extractor and the
/// documents that the emitters build.
///
/// A mapping keeps its entries in insertion order. JSON documents and the emitted
/// documents only hold text keys; YAML allows any node as a key, and may tag a node.
#[derive(Debug, PartialEq, Eq)]
pub enum GenericNode {
    Null,
    Bool(bool),
    Number(Number),
    Text(String),
    /// The items in their order.
    Sequence(Vec<GenericNode>),
    /// The entries in insertion order.
    Mapping(Vec<Entry>),
    /// A tag, written with its leading `!`, and the node that it is put on.
    Tagged(String, Box<GenericNode>),
}

/// The mathematical value of an [`Entry`].
pub ghost struct EntryView {
    pub key: NodeView,
    pub value: NodeView,
}

/// The mathematical value of a [`GenericNode`].
pub ghost enum NodeView {
    Null,
    Bool(bool),
    Number(NumberView),
    Text(Seq<char>),
    Sequence(Seq<NodeView>),
    Mapping(Seq<EntryView>),
    Tagged(Seq<char>, Box<NodeView>),
}

/// The values of a sequence of nodes, one for one.
pub open spec fn node_views(nodes: Seq<GenericNode>) -> Seq<NodeView>
    decreases nodes, 0nat,
{
    // Only positions in range are ever asked for; the test is what shows that the
    // definition ends.
    Seq::new(
        nodes.len(),
        |i: int|
            if 0 <= i < nodes.len() {
                nodes[i].tree()
            } else {
                NodeView::Null
            },
    )
}

/// The values of a sequence of entries, one for one.
pub open spec fn entry_views(entries: Seq<Entry>) -> Seq<EntryView>
    decreases entries, 0nat,
{
    Seq::new(
        entries.len(),
        |i: int|
            if 0 <= i < entries.len() {
                entries[i].pair()
            } else {
                EntryView { key: NodeView::Null, value: NodeView::Null }
            },
    )
}

impl Entry {
    /// The value of the entry.
    pub open spec fn pair(&self) -> EntryView
        decreases self,
    {
        EntryView { key: self.key.tree(), value: self.value.tree() }
    }
}

impl GenericNode {
    /// The value of the node.
    pub open spec fn tree(&self) -> NodeView
        decreases self,
    {
        match self {
            GenericNode::Null => NodeView::Null,
            GenericNode::Bool(b) => NodeView::Bool(*b),
            GenericNode::Number(n) => NodeView::Number(n@),
            GenericNode::Text(s) => NodeView::Text(s@),
            GenericNode::Sequence(items) => NodeView::Sequence(node_views(items@)),
            GenericNode::Mapping(entries) => NodeView::Mapping(entry_views(entries@)),
            GenericNode::Tagged(tag, inner) => NodeView::Tagged(tag@, Box::new(inner.tree())),
        }
    }
}

impl View for GenericNode {
    type V = NodeView;

    open spec fn view(&self) -> NodeView {
        self.tree()
    }
}

impl View for Entry {
    type V = EntryView;

    open spec fn view(&self) -> EntryView {
        self.pair()
    }
}

impl NodeView {
    /// The characters of a text node.
    pub open spec fn text(self) -> Option<Seq<char>> {
        match self {
            NodeView::Text(s) => Some(s),
            _ => None,
        }
    }

    /// The items of a sequence node.
    pub open spec fn items(self) -> Option<Seq<NodeView>> {
        match self {
            NodeView::Sequence(items) => Some(items),
            _ => None,
        }
    }

    /// The entries of a mapping node.
    pub open spec fn entries(self) -> Option<Seq<EntryView>> {
        match self {
            NodeView::Mapping(entries) => Some(entries),
            _ => None,
        }
    }

    /// The value under the text key `key` of a mapping node.
    pub open spec fn get(self, key: Seq<char>) -> Option<NodeView> {
        match self {
            NodeView::Mapping(entries) => lookup(entries, key),
            _ => None,
        }
    }

    /// The node below all the tags that it carries.
    pub open spec fn untagged(self) -> NodeView
        decreases self,
    {
        match self {
            NodeView::Tagged(_, inner) => inner.untagged(),
            _ => self,
        }
    }

    /// The non-negative integer of a number node.
    pub open spec fn unsigned(self) -> Option<u64> {
        match self {
            NodeView::Number(n) => n.unsigned(),
            _ => None,
        }
    }

    /// The signed integer of a number node.
    pub open spec fn signed(self) -> Option<i64> {
        match self {
            NodeView::Number(n) => n.signed(),
            _ => None,
        }
    }
}

impl GenericNode {
    /// The characters of a text node.
    pub fn as_str(&self) -> (found: Option<&str>)
        ensures
            match found {
                Some(s) => self@.text() == Some(s@),
                None => self@.text() is None,
            },
    {
        match self {
            GenericNode::Text(s) => Some(s.as_str()),
            _ => None,
        }
    }

    /// The items of a sequence node.
    pub fn as_sequence(&self) -> (found: Option<&Vec<GenericNode>>)
        ensures
            match found {
                Some(items) => self@.items() == Some(node_views(items@)),
                None => self@.items() is None,
            },
    {
        match self {
            GenericNode::Sequence(items) => Some(items),
            _ => None,
        }
    }

    /// The entries of a mapping node.
    pub fn as_mapping(&self) -> (found: Option<&Vec<Entry>>)
        ensures
            match found {
                Some(entries) => self@.entries() == Some(entry_views(entries@)),
                None => self@.entries() is None,
            },
    {
        match self {
            GenericNode::Mapping(entries) => Some(entries),
            _ => None,
        }
    }

    /// The value under the text key `key` of a mapping node.
    pub fn get(&self, key: &str) -> (found: Option<&GenericNode>)
        ensures
            match found {
                Some(node) => self@.get(key@) == Some(node@),
                None => self@.get(key@) is None,
            },
    {
        match self {
            GenericNode::Mapping(entries) => lookup_entry(entries, key),
            _ => None,
        }
    }

    /// The node below all the tags that it carries.
    pub fn untagged(&self) -> (inner: &GenericNode)
        ensures
            inner@ == self@.untagged(),
        decreases self,
    {
        match self {
            GenericNode::Tagged(_, inner) => inner.untagged(),
            _ => self,
        }
    }

    /// The non-negative integer of a number node.
    pub fn as_u64(&self) -> (value: Option<u64>)
        ensures
            value == self@.unsigned(),
    {
        match self {
            GenericNode::Number(n) => n.as_u64(),
            _ => None,
        }
    }

    /// The signed integer of a number node.
    pub fn as_i64(&self) -> (value: Option<i64>)
        ensures
            value == self@.signed(),
    {
        match self {
            GenericNode::Number(n) => n.as_i64(),
            _ => None,
        }
    }
}

/// The node of a text.
pub fn text_node(text: &str) -> (node: GenericNode)
    ensures
        node@ == NodeView::Text(text@),
{
    GenericNode::Text(text.to_owned())
}

impl Clone for GenericNode {
    /// A copy of the tree.
    fn clone(&self) -> (copy: Self)
        ensures
            copy@ == self@,
        decreases self,
    {
        match self {
            GenericNode::Null => GenericNode::Null,
            GenericNode::Bool(flag) => GenericNode::Bool(*flag),
            GenericNode::Number(number) => GenericNode::Number(number.clone()),
            GenericNode::Text(text) => GenericNode::Text(text.clone()),
            GenericNode::Sequence(items) => {
                let mut copies: Vec<GenericNode> = Vec::new();
                let mut i: usize = 0;
                while i < items.len()
                    invariant
                        i <= items.len(),
                        *self == GenericNode::Sequence(*items),
                        copies.len() == i,
                        forall|k: int| 0 <= k < i ==> (#[trigger] copies[k])@ == items[k]@,
                    decreases items.len() - i,
                {
                    assert(decreases_to!(self => items[i as int])) by {
                        assert(self->Sequence_0 == *items);
                        assert(decreases_to!(*items => items[i as int]));
                    }
                    copies.push(items[i].clone());
                    i = i + 1;
                }
                assert(node_views(copies@) =~= node_views(items@));
                GenericNode::Sequence(copies)
            },
            GenericNode::Mapping(entries) => {
                let mut copies: Vec<Entry> = Vec::new();
                let mut i: usize = 0;
                while i < entries.len()
                    invariant
                        i <= entries.len(),
                        *self == GenericNode::Mapping(*entries),
                        copies.len() == i,
                        forall|k: int| 0 <= k < i ==> (#[trigger] copies[k])@ == entries[k]@,
                    decreases entries.len() - i,
                {
                    assert(decreases_to!(self => entries[i as int])) by {
                        assert(self->Mapping_0 == *entries);
                        assert(decreases_to!(*entries => entries[i as int]));
                    }
                    let key = entries[i].key.clone();
                    let value = entries[i].value.clone();
                    copies.push(Entry { key, value });
                    i = i + 1;
                }
                assert(entry_views(copies@) =~= entry_views(entries@));
                GenericNode::Mapping(copies)
            },
            GenericNode::Tagged(tag, inner) => {
                let below = (**inner).clone();
                GenericNode::Tagged(tag.clone(), Box::new(below))
            },
        }
    }
}

impl Clone for Number {
    /// A copy of the number.
    fn clone(&self) -> (copy: Self)
        ensures
            copy@ == self@,
    {
        match self {
            Number::Unsigned(n) => Number::Unsigned(*n),
            Number::Signed(n) => Number::Signed(*n),
            Number::Real(written) => Number::Real(written.clone()),
        }
    }
}

impl Clone for Entry {
    /// A copy of the entry.
    fn clone(&self) -> (copy: Self)
        ensures
            copy@ == self@,
    {
        Entry { key: self.key.clone(), value: self.value.clone() }
    }
}

} // verus!
