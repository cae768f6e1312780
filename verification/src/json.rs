//! JSON values of `serde_json`, and schemas of `shex_ast`, as document trees.
//!
//! What is stated here of `serde_json` and `shex_ast` is taken on trust.

use crate::node::{entry_views, node_views, Entry, EntryView, GenericNode, NodeView, Number};
use vstd::prelude::*;

verus! {

/// `shex_ast::Schema`, a parsed schema. Nothing is known of what it holds.
#[verifier::external_type_specification]
#[verifier::external_body]
pub struct ExSchema(shex_ast::Schema);

/// `serde_json::Value`. What it holds is named by [`json_tree`].
#[verifier::external_type_specification]
#[verifier::external_body]
pub struct ExJsonValue(serde_json::Value);

/// `serde_json::Error`, carried to the caller as it is.
#[verifier::external_type_specification]
#[verifier::external_body]
pub struct ExJsonError(serde_json::Error);

/// The tree that a JSON value holds: its scalar, the items of its array in their order,
/// or the entries of its object in the order in which the object yields them.
pub uninterp spec fn json_tree(value: serde_json::Value) -> NodeView;

/// The tree of the JSON value that `serde_json::to_value` makes of a schema; `None`
/// where it fails.
pub uninterp spec fn schema_tree(schema: shex_ast::Schema) -> Option<NodeView>;

/// The trees of a sequence of JSON values, one for one.
pub open spec fn json_trees(values: Seq<serde_json::Value>) -> Seq<NodeView> {
    Seq::new(values.len(), |i: int| json_tree(values[i]))
}

/// The entries that the fields of a JSON object stand for, one for one.
pub open spec fn json_entries(fields: Seq<(&String, &serde_json::Value)>) -> Seq<EntryView> {
    Seq::new(
        fields.len(),
        |i: int| EntryView { key: NodeView::Text(fields[i].0@), value: json_tree(*fields[i].1) },
    )
}

/// Calls `serde_json::to_value` on a schema. The contract claims that the outcome depends
/// on the schema alone: serialising reads nothing but the schema's fields.
#[verifier::external_body]
pub(crate) fn schema_to_json(schema: &shex_ast::Schema) -> (outcome: Result<
    serde_json::Value,
    serde_json::Error,
>)
    ensures
        match outcome {
            Ok(value) => schema_tree(*schema) == Some(json_tree(value)),
            Err(_) => schema_tree(*schema) is None,
        },
{
    serde_json::to_value(schema)
}

/// Tells the scalar variants of `serde_json::Value` apart. The contract claims that a
/// null, a boolean, a number and a string hold the node returned, and that any other
/// value holds a sequence or a mapping. A number is `Unsigned` where `as_u64` gives it,
/// else `Signed` where `as_i64` gives it, else `Real` with the text that its `Display`
/// writes.
#[verifier::external_body]
pub(crate) fn json_scalar(value: &serde_json::Value) -> (leaf: Option<GenericNode>)
    ensures
        match leaf {
            Some(node) => json_tree(*value) == node@,
            None => json_tree(*value) is Sequence || json_tree(*value) is Mapping,
        },
{
    match value {
        serde_json::Value::Null => Some(GenericNode::Null),
        serde_json::Value::Bool(b) => Some(GenericNode::Bool(*b)),
        serde_json::Value::Number(n) => Some(GenericNode::Number(match (n.as_u64(), n.as_i64()) {
            (Some(u), _) => Number::Unsigned(u),
            (None, Some(i)) => Number::Signed(i),
            (None, None) => Number::Real(n.to_string()),
        })),
        serde_json::Value::String(s) => Some(GenericNode::Text(s.clone())),
        _ => None,
    }
}

/// Calls `serde_json::Value::as_array`. The contract claims that an array holds the
/// sequence of the trees of its items, and that no other value holds a sequence.
#[verifier::external_body]
pub(crate) fn json_items(value: &serde_json::Value) -> (found: Option<&Vec<serde_json::Value>>)
    ensures
        match found {
            Some(items) => json_tree(*value) == NodeView::Sequence(json_trees(items@)),
            None => !(json_tree(*value) is Sequence),
        },
{
    value.as_array()
}

/// Lists the fields of the `Object` variant of `serde_json::Value` with `Map::iter`. The
/// contract claims that an object holds the mapping of its fields in the order of `iter`,
/// each key as a text, and that no other value holds a mapping.
#[verifier::external_body]
pub(crate) fn json_fields<'a>(value: &'a serde_json::Value) -> (found: Option<
    Vec<(&'a String, &'a serde_json::Value)>,
>)
    ensures
        match found {
            Some(fields) => json_tree(*value) == NodeView::Mapping(json_entries(fields@)),
            None => !(json_tree(*value) is Mapping),
        },
{
    match value {
        serde_json::Value::Object(fields) => Some(fields.iter().collect()),
        _ => None,
    }
}

/// The node that a JSON value holds.
pub fn node_from_json(value: &serde_json::Value) -> (node: GenericNode)
    ensures
        node@ == json_tree(*value),
    decreases json_tree(*value),
{
    if let Some(leaf) = json_scalar(value) {
        leaf
    } else if let Some(items) = json_items(value) {
        let mut nodes: Vec<GenericNode> = Vec::new();
        let mut i: usize = 0;
        while i < items.len()
            invariant
                i <= items.len(),
                json_tree(*value) == NodeView::Sequence(json_trees(items@)),
                nodes.len() == i,
                forall|k: int| 0 <= k < i ==> (#[trigger] nodes[k])@ == json_tree(items[k]),
            decreases items.len() - i,
        {
            assert(decreases_to!(json_tree(*value) => json_tree(items[i as int]))) by {
                let trees = json_tree(*value)->Sequence_0;
                assert(trees[i as int] == json_tree(items[i as int]));
                assert(decreases_to!(trees => trees[i as int]));
            }
            let node = node_from_json(&items[i]);
            nodes.push(node);
            i = i + 1;
        }
        assert(node_views(nodes@) =~= json_trees(items@));
        GenericNode::Sequence(nodes)
    } else if let Some(fields) = json_fields(value) {
        let mut entries: Vec<Entry> = Vec::new();
        let mut i: usize = 0;
        while i < fields.len()
            invariant
                i <= fields.len(),
                json_tree(*value) == NodeView::Mapping(json_entries(fields@)),
                entries.len() == i,
                forall|k: int| 0 <= k < i ==> (#[trigger] entries[k])@ == json_entries(fields@)[k],
            decreases fields.len() - i,
        {
            assert(decreases_to!(json_tree(*value) => json_tree(*fields[i as int].1))) by {
                let pairs = json_tree(*value)->Mapping_0;
                assert(pairs[i as int].value == json_tree(*fields[i as int].1));
                assert(decreases_to!(pairs => pairs[i as int]));
            }
            let field = &fields[i];
            let node = node_from_json(field.1);
            entries.push(Entry { key: GenericNode::Text(field.0.clone()), value: node });
            i = i + 1;
        }
        assert(entry_views(entries@) =~= json_entries(fields@));
        GenericNode::Mapping(entries)
    } else {
        GenericNode::Null
    }
}

} // verus!
