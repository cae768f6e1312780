//! YAML values of `serde_yaml` as document trees, and document trees as YAML.
//!
//! What is stated here of `serde_yaml` is taken on trust.

use crate::mapping::{distinct_keys, is_plain};
use crate::node::{entry_views, node_views, Entry, EntryView, GenericNode, NodeView, Number};
use vstd::prelude::*;

verus! {

/// `serde_yaml::Value`. What it holds is named by [`yaml_tree`].
#[verifier::external_type_specification]
#[verifier::external_body]
pub struct ExYamlValue(serde_yaml::Value);

/// `serde_yaml::Error`, carried to the caller as it is.
#[verifier::external_type_specification]
#[verifier::external_body]
pub struct ExYamlError(serde_yaml::Error);

/// The tree that a YAML value holds: its scalar, the items of its sequence, the entries
/// of its mapping in insertion order, or its tag and the tree below it.
pub uninterp spec fn yaml_tree(value: serde_yaml::Value) -> NodeView;

/// The tree of the value that `serde_yaml::from_str` reads from a text; `None` where the
/// text is not YAML.
pub uninterp spec fn yaml_document(text: Seq<char>) -> Option<NodeView>;

/// The text that `serde_yaml::to_string` writes for a value that holds a tree; `None`
/// where it fails.
pub uninterp spec fn yaml_text(tree: NodeView) -> Option<Seq<char>>;

/// The trees of a sequence of YAML values, one for one.
pub open spec fn yaml_trees(values: Seq<serde_yaml::Value>) -> Seq<NodeView> {
    Seq::new(values.len(), |i: int| yaml_tree(values[i]))
}

/// The entries that borrowed pairs of a YAML mapping stand for, one for one.
pub open spec fn yaml_entries(pairs: Seq<(&serde_yaml::Value, &serde_yaml::Value)>) -> Seq<
    EntryView,
> {
    Seq::new(
        pairs.len(),
        |i: int| EntryView { key: yaml_tree(*pairs[i].0), value: yaml_tree(*pairs[i].1) },
    )
}

/// The entries that pairs of YAML values stand for, one for one.
pub open spec fn yaml_pairs(pairs: Seq<(serde_yaml::Value, serde_yaml::Value)>) -> Seq<
    EntryView,
> {
    Seq::new(
        pairs.len(),
        |i: int| EntryView { key: yaml_tree(pairs[i].0), value: yaml_tree(pairs[i].1) },
    )
}

/// Calls `serde_yaml::from_str` for a `serde_yaml::Value`. The contract claims that the
/// outcome depends on the text alone.
#[verifier::external_body]
pub(crate) fn parse_yaml(text: &str) -> (outcome: Result<serde_yaml::Value, serde_yaml::Error>)
    ensures
        match outcome {
            Ok(value) => yaml_document(text@) == Some(yaml_tree(value)),
            Err(_) => yaml_document(text@) is None,
        },
{
    serde_yaml::from_str::<serde_yaml::Value>(text)
}

/// Calls `serde_yaml::to_string` on a value. The contract claims that the outcome
/// depends on the tree of the value alone.
#[verifier::external_body]
pub(crate) fn yaml_to_string(value: &serde_yaml::Value) -> (outcome: Result<
    String,
    serde_yaml::Error,
>)
    ensures
        match outcome {
            Ok(text) => yaml_text(yaml_tree(*value)) == Some(text@),
            Err(_) => yaml_text(yaml_tree(*value)) is None,
        },
{
    serde_yaml::to_string(value)
}

/// Tells the scalar variants of `serde_yaml::Value` apart. The contract claims that a
/// null, a boolean, a number and a string hold the node returned, and that any other
/// value holds a sequence, a mapping or a tagged tree. A number is `Unsigned` where
/// `as_u64` gives it, else `Signed` where `as_i64` gives it, else `Real` with the text
/// that its `Display` writes.
#[verifier::external_body]
pub(crate) fn yaml_scalar(value: &serde_yaml::Value) -> (leaf: Option<GenericNode>)
    ensures
        match leaf {
            Some(node) => yaml_tree(*value) == node@,
            None => yaml_tree(*value) is Sequence || yaml_tree(*value) is Mapping || yaml_tree(
                *value,
            ) is Tagged,
        },
{
    match value {
        serde_yaml::Value::Null => Some(GenericNode::Null),
        serde_yaml::Value::Bool(b) => Some(GenericNode::Bool(*b)),
        serde_yaml::Value::Number(n) => Some(GenericNode::Number(match (n.as_u64(), n.as_i64()) {
            (Some(u), _) => Number::Unsigned(u),
            (None, Some(i)) => Number::Signed(i),
            (None, None) => Number::Real(n.to_string()),
        })),
        serde_yaml::Value::String(s) => Some(GenericNode::Text(s.clone())),
        _ => None,
    }
}

/// Picks the items of the `Sequence` variant of `serde_yaml::Value`. The contract claims
/// that a sequence holds the sequence of the trees of its items, and that no other value
/// holds a sequence.
#[verifier::external_body]
pub(crate) fn yaml_items(value: &serde_yaml::Value) -> (found: Option<&Vec<serde_yaml::Value>>)
    ensures
        match found {
            Some(items) => yaml_tree(*value) == NodeView::Sequence(yaml_trees(items@)),
            None => !(yaml_tree(*value) is Sequence),
        },
{
    match value {
        serde_yaml::Value::Sequence(items) => Some(items),
        _ => None,
    }
}

/// Lists the entries of the `Mapping` variant of `serde_yaml::Value` with
/// `Mapping::iter`. The contract claims that a mapping holds its entries in the order of
/// `iter`, and that no other value holds a mapping.
#[verifier::external_body]
pub(crate) fn yaml_fields<'a>(value: &'a serde_yaml::Value) -> (found: Option<
    Vec<(&'a serde_yaml::Value, &'a serde_yaml::Value)>,
>)
    ensures
        match found {
            Some(pairs) => yaml_tree(*value) == NodeView::Mapping(yaml_entries(pairs@)),
            None => !(yaml_tree(*value) is Mapping),
        },
{
    match value {
        serde_yaml::Value::Mapping(mapping) => Some(mapping.iter().collect()),
        _ => None,
    }
}

/// Picks the tag and the value of the `Tagged` variant of `serde_yaml::Value`. The
/// contract claims that a tagged value holds the tag as its `Display` writes it, above
/// the tree of the value below, and that no other value holds a tagged tree.
#[verifier::external_body]
pub(crate) fn yaml_tagged<'a>(value: &'a serde_yaml::Value) -> (found: Option<
    (String, &'a serde_yaml::Value),
>)
    ensures
        match found {
            Some(pair) => yaml_tree(*value) == NodeView::Tagged(
                pair.0@,
                Box::new(yaml_tree(*pair.1)),
            ),
            None => !(yaml_tree(*value) is Tagged),
        },
{
    match value {
        serde_yaml::Value::Tagged(tagged) => Some((tagged.tag.to_string(), &tagged.value)),
        _ => None,
    }
}

/// Makes the `serde_yaml::Value` of a plain scalar: `Bool` of a boolean, `String` of a
/// text, the `Number` that `From<u64>` or `From<i64>` makes of an integer, and `Null` of
/// the null node. The contract claims that the value holds the node: `From<i64>` makes a
/// signed number of a negative integer, and a plain `Signed` is negative.
#[verifier::external_body]
pub(crate) fn yaml_from_scalar(node: &GenericNode) -> (value: serde_yaml::Value)
    requires
        is_plain(node@),
        !(node@ is Sequence),
        !(node@ is Mapping),
    ensures
        yaml_tree(value) == node@,
{
    match node {
        GenericNode::Bool(b) => serde_yaml::Value::Bool(*b),
        GenericNode::Number(Number::Unsigned(u)) => serde_yaml::Value::Number((*u).into()),
        GenericNode::Number(Number::Signed(i)) => serde_yaml::Value::Number((*i).into()),
        GenericNode::Text(s) => serde_yaml::Value::String(s.clone()),
        _ => serde_yaml::Value::Null,
    }
}

/// Makes the `Sequence` variant of `serde_yaml::Value`. The contract claims that it holds
/// the trees of the items.
#[verifier::external_body]
pub(crate) fn yaml_from_items(items: Vec<serde_yaml::Value>) -> (value: serde_yaml::Value)
    ensures
        yaml_tree(value) == NodeView::Sequence(yaml_trees(items@)),
{
    serde_yaml::Value::Sequence(items)
}

/// Makes the `Mapping` variant of `serde_yaml::Value`, collecting the pairs in their
/// order. The contract claims that it holds the pairs as entries: a mapping keeps one
/// entry for each key, and here no two keys are the same text.
#[verifier::external_body]
pub(crate) fn yaml_from_fields(pairs: Vec<(serde_yaml::Value, serde_yaml::Value)>) -> (value:
    serde_yaml::Value)
    requires
        distinct_keys(yaml_pairs(pairs@)),
        forall|i: int| 0 <= i < pairs.len() ==> (#[trigger] yaml_pairs(pairs@)[i]).key is Text,
    ensures
        yaml_tree(value) == NodeView::Mapping(yaml_pairs(pairs@)),
{
    serde_yaml::Value::Mapping(pairs.into_iter().collect())
}

/// The node that a YAML value holds.
pub fn node_from_yaml(value: &serde_yaml::Value) -> (node: GenericNode)
    ensures
        node@ == yaml_tree(*value),
    decreases yaml_tree(*value),
{
    if let Some(leaf) = yaml_scalar(value) {
        leaf
    } else if let Some(items) = yaml_items(value) {
        let mut nodes: Vec<GenericNode> = Vec::new();
        let mut i: usize = 0;
        while i < items.len()
            invariant
                i <= items.len(),
                yaml_tree(*value) == NodeView::Sequence(yaml_trees(items@)),
                nodes.len() == i,
                forall|k: int| 0 <= k < i ==> (#[trigger] nodes[k])@ == yaml_tree(items[k]),
            decreases items.len() - i,
        {
            assert(decreases_to!(yaml_tree(*value) => yaml_tree(items[i as int]))) by {
                let trees = yaml_tree(*value)->Sequence_0;
                assert(trees[i as int] == yaml_tree(items[i as int]));
                assert(decreases_to!(trees => trees[i as int]));
            }
            let node = node_from_yaml(&items[i]);
            nodes.push(node);
            i = i + 1;
        }
        assert(node_views(nodes@) =~= yaml_trees(items@));
        GenericNode::Sequence(nodes)
    } else if let Some(pairs) = yaml_fields(value) {
        let mut entries: Vec<Entry> = Vec::new();
        let mut i: usize = 0;
        while i < pairs.len()
            invariant
                i <= pairs.len(),
                yaml_tree(*value) == NodeView::Mapping(yaml_entries(pairs@)),
                entries.len() == i,
                forall|k: int| 0 <= k < i ==> (#[trigger] entries[k])@ == yaml_entries(pairs@)[k],
            decreases pairs.len() - i,
        {
            assert(decreases_to!(yaml_tree(*value) => yaml_tree(*pairs[i as int].0))
                && decreases_to!(yaml_tree(*value) => yaml_tree(*pairs[i as int].1))) by {
                let all = yaml_tree(*value)->Mapping_0;
                assert(all[i as int].key == yaml_tree(*pairs[i as int].0));
                assert(all[i as int].value == yaml_tree(*pairs[i as int].1));
                assert(decreases_to!(all => all[i as int]));
            }
            let pair = &pairs[i];
            let key = node_from_yaml(pair.0);
            let node = node_from_yaml(pair.1);
            entries.push(Entry { key, value: node });
            i = i + 1;
        }
        assert(entry_views(entries@) =~= yaml_entries(pairs@));
        GenericNode::Mapping(entries)
    } else if let Some(pair) = yaml_tagged(value) {
        assert(decreases_to!(yaml_tree(*value) => yaml_tree(*pair.1))) by {
            assert(*yaml_tree(*value)->Tagged_1 == yaml_tree(*pair.1));
        }
        let inner = node_from_yaml(pair.1);
        GenericNode::Tagged(pair.0, Box::new(inner))
    } else {
        GenericNode::Null
    }
}

/// The YAML value that holds a plain node.
pub(crate) fn node_to_yaml(node: &GenericNode) -> (value: serde_yaml::Value)
    requires
        is_plain(node@),
    ensures
        yaml_tree(value) == node@,
    decreases node,
{
    match node {
        GenericNode::Sequence(items) => {
            let mut values: Vec<serde_yaml::Value> = Vec::new();
            let mut i: usize = 0;
            while i < items.len()
                invariant
                    i <= items.len(),
                    *node == GenericNode::Sequence(*items),
                    is_plain(node@),
                    values.len() == i,
                    forall|k: int| 0 <= k < i ==> yaml_tree(#[trigger] values[k]) == items[k]@,
                decreases items.len() - i,
            {
                assert(decreases_to!(node => items[i as int])) by {
                    assert(node->Sequence_0 == *items);
                    assert(decreases_to!(*items => items[i as int]));
                }
                assert(is_plain(items[i as int]@)) by {
                    assert(node@ == NodeView::Sequence(node_views(items@)));
                    assert(node@->Sequence_0[i as int] == items[i as int]@);
                }
                let value = node_to_yaml(&items[i]);
                values.push(value);
                i = i + 1;
            }
            assert(yaml_trees(values@) =~= node_views(items@));
            yaml_from_items(values)
        },
        GenericNode::Mapping(entries) => {
            let mut pairs: Vec<(serde_yaml::Value, serde_yaml::Value)> = Vec::new();
            let mut i: usize = 0;
            while i < entries.len()
                invariant
                    i <= entries.len(),
                    *node == GenericNode::Mapping(*entries),
                    is_plain(node@),
                    pairs.len() == i,
                    forall|k: int|
                        0 <= k < i ==> yaml_tree((#[trigger] pairs[k]).0) == entries[k].key@
                            && yaml_tree(pairs[k].1) == entries[k].value@,
                decreases entries.len() - i,
            {
                assert(decreases_to!(node => entries[i as int])) by {
                    assert(node->Mapping_0 == *entries);
                    assert(decreases_to!(*entries => entries[i as int]));
                }
                assert(is_plain(entries[i as int].key@) && is_plain(entries[i as int].value@)) by {
                    assert(node@ == NodeView::Mapping(entry_views(entries@)));
                    assert(node@->Mapping_0[i as int] == entries[i as int]@);
                }
                let key = node_to_yaml(&entries[i].key);
                let value = node_to_yaml(&entries[i].value);
                pairs.push((key, value));
                i = i + 1;
            }
            assert(yaml_pairs(pairs@) =~= entry_views(entries@));
            yaml_from_fields(pairs)
        },
        _ => yaml_from_scalar(node),
    }
}

} // verus!
