//! Mappings as ordered entries: looking a key up, putting a value under a key, and what
//! makes a document plain.

use crate::node::{entry_views, text_node, Entry, EntryView, GenericNode, NodeView, NumberView};
use crate::text::str_eq;
use vstd::prelude::*;

verus! {

/// The first position at or behind `from` whose item meets `pred`; the length of `s`
/// where there is none.
pub open spec fn first_from<A>(s: Seq<A>, pred: spec_fn(A) -> bool, from: int) -> int
    decreases s.len() - from,
{
    if from < 0 || from >= s.len() {
        s.len() as int
    } else if pred(s[from]) {
        from
    } else {
        first_from(s, pred, from + 1)
    }
}

/// What `first_from` returns: a position in range that meets `pred` with none before it,
/// or the length.
pub proof fn lemma_first_from<A>(s: Seq<A>, pred: spec_fn(A) -> bool, from: int)
    requires
        0 <= from <= s.len(),
    ensures
        from <= first_from(s, pred, from) <= s.len(),
        first_from(s, pred, from) < s.len() ==> pred(s[first_from(s, pred, from)]),
        forall|i: int| from <= i < first_from(s, pred, from) ==> !pred(#[trigger] s[i]),
    decreases s.len() - from,
{
    if from < s.len() && !pred(s[from]) {
        lemma_first_from(s, pred, from + 1);
    }
}

/// A position that meets `pred`, with none before it that does, is what `first_from`
/// returns; so is the length where no position meets `pred`.
pub proof fn lemma_first_from_found<A>(s: Seq<A>, pred: spec_fn(A) -> bool, from: int, at: int)
    requires
        0 <= from <= at <= s.len(),
        forall|i: int| from <= i < at ==> !pred(#[trigger] s[i]),
        at < s.len() ==> pred(s[at]),
    ensures
        first_from(s, pred, from) == at,
    decreases at - from,
{
    if from < at {
        lemma_first_from_found(s, pred, from + 1, at);
    }
}

/// The entries whose key is the text `key`.
pub open spec fn keyed(key: Seq<char>) -> spec_fn(EntryView) -> bool {
    |e: EntryView| e.key == NodeView::Text(key)
}

/// The position of the first entry under the text key `key`; the length where there is
/// none.
pub open spec fn key_position(entries: Seq<EntryView>, key: Seq<char>) -> int {
    first_from(entries, keyed(key), 0)
}

/// The value of the first entry under the text key `key`.
pub open spec fn lookup(entries: Seq<EntryView>, key: Seq<char>) -> Option<NodeView> {
    let at = key_position(entries, key);
    if at < entries.len() {
        Some(entries[at].value)
    } else {
        None
    }
}

/// The entry of a value under a text key.
pub open spec fn entry(key: Seq<char>, value: NodeView) -> EntryView {
    EntryView { key: NodeView::Text(key), value }
}

/// The entries after `value` was put under the text key `key`: in the place of the first
/// entry under that key, or behind all entries where there is none.
pub open spec fn upsert(entries: Seq<EntryView>, key: Seq<char>, value: NodeView) -> Seq<
    EntryView,
> {
    let at = key_position(entries, key);
    if at < entries.len() {
        entries.update(at, entry(key, value))
    } else {
        entries.push(entry(key, value))
    }
}

/// The position of the first entry under the text key `key`; the length where there is
/// none.
pub fn find_entry(entries: &Vec<Entry>, key: &str) -> (at: usize)
    ensures
        at == key_position(entry_views(entries@), key@),
        at <= entries.len(),
{
    let ghost views = entry_views(entries@);
    let mut at: usize = 0;
    while at < entries.len()
        invariant
            at <= entries.len(),
            views == entry_views(entries@),
            first_from(views, keyed(key@), at as int) == key_position(views, key@),
        decreases entries.len() - at,
    {
        let found = match &entries[at].key {
            GenericNode::Text(s) => str_eq(s.as_str(), key),
            _ => false,
        };
        assert(found == keyed(key@)(views[at as int]));
        if found {
            return at;
        }
        at = at + 1;
    }
    at
}

/// The value of the first entry under the text key `key`.
pub fn lookup_entry<'a>(entries: &'a Vec<Entry>, key: &str) -> (found: Option<&'a GenericNode>)
    ensures
        match found {
            Some(node) => lookup(entry_views(entries@), key@) == Some(node@),
            None => lookup(entry_views(entries@), key@) is None,
        },
{
    let at = find_entry(entries, key);
    if at < entries.len() {
        Some(&entries[at].value)
    } else {
        None
    }
}

/// Puts `value` under the text key `key`: in the place of the first entry under that key,
/// or behind all entries where there is none.
pub fn insert_entry(entries: &mut Vec<Entry>, key: String, value: GenericNode)
    ensures
        entry_views(final(entries)@) == upsert(entry_views(old(entries)@), key@, value@),
{
    let at = find_entry(entries, key.as_str());
    let ghost before = entry_views(entries@);
    let entry = Entry { key: GenericNode::Text(key), value };
    if at < entries.len() {
        entries.set(at, entry);
        assert(entry_views(entries@) =~= before.update(at as int, entry@));
    } else {
        entries.push(entry);
        assert(entry_views(entries@) =~= before.push(entry@));
    }
}

/// The entry of a value under a text key.
pub fn text_entry(key: &str, value: GenericNode) -> (made: Entry)
    ensures
        made@ == entry(key@, value@),
{
    Entry { key: text_node(key), value }
}

/// Whether no two entries have the same key.
pub open spec fn distinct_keys(entries: Seq<EntryView>) -> bool {
    forall|i: int, j: int|
        0 <= i < j < entries.len() ==> #[trigger] entries[i].key != #[trigger] entries[j].key
}

/// Whether a document is plain: it carries no tag, the keys of each mapping are texts
/// and no two of them are the same, and its numbers are integers, a `Signed` one being
/// negative. The emitters build plain documents.
pub open spec fn is_plain(node: NodeView) -> bool
    decreases node,
{
    match node {
        NodeView::Null => true,
        NodeView::Bool(_) => true,
        NodeView::Text(_) => true,
        NodeView::Number(n) => match n {
            NumberView::Unsigned(_) => true,
            NumberView::Signed(i) => i < 0,
            NumberView::Real(_) => false,
        },
        NodeView::Sequence(items) => forall|i: int|
            0 <= i < items.len() ==> is_plain(#[trigger] items[i]),
        NodeView::Mapping(entries) => distinct_keys(entries) && forall|i: int|
            0 <= i < entries.len() ==> (#[trigger] entries[i]).key is Text && is_plain(
                entries[i].value,
            ),
        NodeView::Tagged(_, _) => false,
    }
}

/// What stands under a key after a value was put under `key`: that value under `key`
/// itself, and under any other key what stood there before.
pub proof fn lemma_lookup_upsert(
    entries: Seq<EntryView>,
    key: Seq<char>,
    value: NodeView,
    other: Seq<char>,
)
    ensures
        lookup(upsert(entries, key, value), other) == if other == key {
            Some(value)
        } else {
            lookup(entries, other)
        },
{
    let at = key_position(entries, key);
    let after = upsert(entries, key, value);
    lemma_first_from(entries, keyed(key), 0);
    if other == key {
        assert forall|i: int| 0 <= i < at implies !keyed(key)(#[trigger] after[i]) by {
            assert(after[i] == entries[i]);
        }
        lemma_first_from_found(after, keyed(key), 0, at);
    } else {
        let found = key_position(entries, other);
        lemma_first_from(entries, keyed(other), 0);
        assert(NodeView::Text(key) != NodeView::Text(other));
        if found < entries.len() {
            assert(found != at);
            assert forall|i: int| 0 <= i < found implies !keyed(other)(#[trigger] after[i]) by {
                if i != at {
                    assert(after[i] == entries[i]);
                }
            }
            assert(after[found] == entries[found]);
            lemma_first_from_found(after, keyed(other), 0, found);
        } else {
            assert forall|i: int| 0 <= i < after.len() implies !keyed(other)(
                #[trigger] after[i],
            ) by {
                if i != at {
                    assert(after[i] == entries[i]);
                }
            }
            lemma_first_from_found(after, keyed(other), 0, after.len() as int);
        }
    }
}

/// Whether entries can form a plain mapping: the keys are texts, no two are the same,
/// and the values are plain.
pub open spec fn plain_entries(entries: Seq<EntryView>) -> bool {
    is_plain(NodeView::Mapping(entries))
}

/// Putting a plain value under a text key keeps entries plain.
pub proof fn lemma_upsert_plain(entries: Seq<EntryView>, key: Seq<char>, value: NodeView)
    requires
        plain_entries(entries),
        is_plain(value),
    ensures
        plain_entries(upsert(entries, key, value)),
{
    lemma_first_from(entries, keyed(key), 0);
    let at = key_position(entries, key);
    let after = upsert(entries, key, value);
    assert(NodeView::Mapping(entries)->Mapping_0 == entries);
    assert(NodeView::Mapping(after)->Mapping_0 == after);
    assert forall|i: int| 0 <= i < after.len() implies (#[trigger] after[i]).key is Text
        && is_plain(after[i].value) by {
        if i != at {
            assert(after[i] == entries[i]);
        }
    }
    assert forall|i: int, j: int| 0 <= i < j < after.len() implies #[trigger] after[i].key
        != #[trigger] after[j].key by {
        if at < entries.len() {
            if i != at {
                assert(after[i] == entries[i]);
            }
            if j != at {
                assert(after[j] == entries[j]);
            }
            assert(after[at].key == entries[at].key);
        } else {
            assert(after[i] == entries[i]);
            if j < entries.len() {
                assert(after[j] == entries[j]);
            } else {
                assert(!keyed(key)(entries[i]));
            }
        }
    }
}

} // verus!
