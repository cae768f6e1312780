//! From a class document back to shape expressions.

use crate::error::ConvertError;
use crate::linkml::{
    class_entries, last_declared, lemma_last_declaration_wins, linkml_document, slot_entries,
    slot_node, DEFAULT_PREFIX,
};
use crate::mapping::{first_from, lookup, lookup_entry};
use crate::node::{entry_views, node_views, Entry, EntryView, GenericNode, NodeView};
use crate::shape::{PropertyView, ShapeView};
use crate::text::{option_view, str_eq};
use crate::yaml::{node_from_yaml, parse_yaml, yaml_document};
use vstd::prelude::*;
use vstd::string::StringExecFns;

verus! {

/// The namespace of a predicate in a document without prefixes.
pub const DEFAULT_NAMESPACE: &'static str = "http://example.org/";

/// The entries of the mapping that stands under `key` in the root of a document. The
/// root is read below its tags; what stands under the key must itself be a mapping.
pub open spec fn section_of(document: NodeView, key: Seq<char>) -> Option<Seq<EntryView>> {
    match document.untagged().get(key) {
        Some(NodeView::Mapping(entries)) => Some(entries),
        _ => None,
    }
}

/// The entries whose key and value are both texts.
pub open spec fn text_pair() -> spec_fn(EntryView) -> bool {
    |e: EntryView| e.key is Text && e.value is Text
}

/// The prefix label of a document: the key of the first entry of `prefixes` that maps a
/// text to a text. No later entry counts, nor does the namespace that the label stands
/// for.
pub open spec fn prefix_of(document: NodeView) -> Option<Seq<char>> {
    match section_of(document, "prefixes"@) {
        Some(entries) => {
            let at = first_from(entries, text_pair(), 0);
            if 0 <= at < entries.len() {
                entries[at].key.text()
            } else {
                None
            }
        },
        None => None,
    }
}

/// The slot definitions of a document; none where it has no `slots` mapping.
pub open spec fn slots_of(document: NodeView) -> Seq<EntryView> {
    match section_of(document, "slots"@) {
        Some(entries) => entries,
        None => Seq::empty(),
    }
}

/// The predicate of a slot: the prefix label, a colon and the slot name, or the slot
/// name in the default namespace where the document has no prefix.
pub open spec fn predicate_of(prefix: Option<Seq<char>>, slot: Seq<char>) -> Seq<char> {
    match prefix {
        Some(label) => label + ":"@ + slot,
        None => DEFAULT_NAMESPACE@ + slot,
    }
}

/// The text under `key` in a slot definition, read below its tags.
pub open spec fn slot_text(definition: Option<NodeView>, key: Seq<char>) -> Option<Seq<char>> {
    match definition {
        Some(NodeView::Mapping(fields)) => match lookup(fields, key) {
            Some(value) => value.untagged().text(),
            None => None,
        },
        _ => None,
    }
}

/// The integer under `key` in a slot definition, read below its tags.
pub open spec fn slot_count(definition: Option<NodeView>, key: Seq<char>) -> Option<i64> {
    match definition {
        Some(NodeView::Mapping(fields)) => match lookup(fields, key) {
            Some(value) => value.untagged().signed(),
            None => None,
        },
        _ => None,
    }
}

/// The range of a slot; `string` where its definition names none.
pub open spec fn slot_range(definition: Option<NodeView>) -> Seq<char> {
    match slot_text(definition, "range"@) {
        Some(range) => range,
        None => "string"@,
    }
}

/// The least number of values of a slot; 0 where its definition names none.
pub open spec fn slot_min(definition: Option<NodeView>) -> i64 {
    match slot_count(definition, "min_count"@) {
        Some(count) => count,
        None => 0,
    }
}

/// The greatest number of values of a slot; 1 where its definition names none.
pub open spec fn slot_max(definition: Option<NodeView>) -> i64 {
    match slot_count(definition, "max_count"@) {
        Some(count) => count,
        None => 1,
    }
}

/// The cardinality marker for a least and a greatest number of values.
pub open spec fn marker_of(min: int, max: int) -> Seq<char> {
    if min == 0 && max > 1 {
        "*"@
    } else if min == 1 && max > 1 {
        "+"@
    } else if min == 1 && max == 1 {
        ""@
    } else {
        "?"@
    }
}

/// The datatype constraint that a range is written as: only `integer` has one.
pub open spec fn constraint_of(range: Seq<char>) -> Seq<char> {
    if range == "integer"@ {
        " xsd:integer"@
    } else {
        ""@
    }
}

/// The line of a slot: two blanks, its predicate, a blank, its constraint, its marker
/// and ` ;`.
pub open spec fn slot_line(
    prefix: Option<Seq<char>>,
    slots: Seq<EntryView>,
    slot: Seq<char>,
) -> Seq<char> {
    let definition = lookup(slots, slot);
    "  "@ + predicate_of(prefix, slot) + " "@ + constraint_of(slot_range(definition)) + marker_of(
        slot_min(definition) as int,
        slot_max(definition) as int,
    ) + " ;\n"@
}

/// The lines of the slot names of a class that are texts, line after line.
pub open spec fn slot_lines(
    prefix: Option<Seq<char>>,
    slots: Seq<EntryView>,
    names: Seq<NodeView>,
) -> Seq<char>
    decreases names.len(),
{
    if names.len() == 0 {
        Seq::empty()
    } else {
        let before = slot_lines(prefix, slots, names.drop_last());
        match names.last() {
            NodeView::Text(slot) => before + slot_line(prefix, slots, slot),
            _ => before,
        }
    }
}

/// The block of a class: its label line, and where the class is a mapping with a
/// sequence under `slots`, the lines of its slots between braces and a blank line.
pub open spec fn class_block(
    prefix: Option<Seq<char>>,
    slots: Seq<EntryView>,
    name: Seq<char>,
    class: NodeView,
) -> Seq<char> {
    let label = "<"@ + name + "> IRI\n"@;
    match class {
        NodeView::Mapping(fields) => match lookup(fields, "slots"@) {
            Some(NodeView::Sequence(names)) => label + "{\n"@ + slot_lines(prefix, slots, names)
                + "}\n\n"@,
            _ => label,
        },
        _ => label,
    }
}

/// The blocks of the classes whose key is a text, block after block.
pub open spec fn class_blocks(
    prefix: Option<Seq<char>>,
    slots: Seq<EntryView>,
    classes: Seq<EntryView>,
) -> Seq<char>
    decreases classes.len(),
{
    if classes.len() == 0 {
        Seq::empty()
    } else {
        let before = class_blocks(prefix, slots, classes.drop_last());
        match classes.last().key {
            NodeView::Text(name) => before + class_block(prefix, slots, name, classes.last().value),
            _ => before,
        }
    }
}

/// The shape expressions that a class document is written as; `None` where the document
/// has no `classes` mapping.
pub open spec fn shex_of(document: NodeView) -> Option<Seq<char>> {
    match section_of(document, "classes"@) {
        Some(classes) => Some(class_blocks(prefix_of(document), slots_of(document), classes)),
        None => None,
    }
}

/// The markers of the five cardinalities that a slot can be given.
pub proof fn lemma_cardinality_markers(min: int, max: int)
    ensures
        min == 0 && max > 1 ==> marker_of(min, max) == "*"@,
        min == 1 && max > 1 ==> marker_of(min, max) == "+"@,
        min == 1 && max == 1 ==> marker_of(min, max) == ""@,
        min == 0 && max == 1 ==> marker_of(min, max) == "?"@,
        min == 0 && max == 0 ==> marker_of(min, max) == "?"@,
{
}

/// The count that is read back for a count that was written: the count itself where it
/// fits a signed integer, and the default otherwise.
pub open spec fn count_read(written: Option<u64>, default: i64) -> i64 {
    match written {
        Some(count) => if count <= i64::MAX as u64 {
            count as i64
        } else {
            default
        },
        None => default,
    }
}

/// What is read back from the slot that was written for a property: its range, and its
/// counts as far as they fit a signed integer; a count that is absent or does not fit is
/// read as the default.
pub proof fn lemma_slot_round_trip(property: PropertyView)
    ensures
        slot_range(Some(slot_node(property))) == property.range,
        slot_min(Some(slot_node(property))) == count_read(property.min, 0),
        slot_max(Some(slot_node(property))) == count_read(property.max, 1),
{
    reveal_strlit("range");
    reveal_strlit("min_count");
    reveal_strlit("max_count");
    reveal_with_fuel(first_from, 4);
    let fields = slot_node(property)->Mapping_0;
    assert("range"@.len() == 5);
    assert("min_count"@.len() == 9);
    assert("min_count"@[1] == 'i');
    assert("max_count"@[1] == 'a');
    assert(fields[0].key == NodeView::Text("range"@));
    assert(NodeView::Text("range"@) != NodeView::Text("min_count"@));
    assert(NodeView::Text("range"@) != NodeView::Text("max_count"@));
    assert(NodeView::Text("min_count"@) != NodeView::Text("max_count"@));
    match (property.min, property.max) {
        (Some(_), Some(_)) => {
            assert(fields.len() == 3);
            assert(fields[1].key == NodeView::Text("min_count"@));
            assert(fields[2].key == NodeView::Text("max_count"@));
        },
        (Some(_), None) => {
            assert(fields.len() == 2);
            assert(fields[1].key == NodeView::Text("min_count"@));
        },
        (None, Some(_)) => {
            assert(fields.len() == 2);
            assert(fields[1].key == NodeView::Text("max_count"@));
        },
        (None, None) => {
            assert(fields.len() == 1);
        },
    }
}

/// A property that is written as a slot and read back gets the marker of its
/// cardinality: `*` for 0 to many, `+` for 1 to many, none for exactly 1, and `?` for 0
/// to 1 and for 0 to 0. The greatest number of values must fit a signed integer.
pub proof fn lemma_marker_round_trip(property: PropertyView)
    requires
        property.min is Some,
        property.max is Some,
        property.max->0 <= i64::MAX as u64,
    ensures
        ({
            let min = property.min->0;
            let max = property.max->0;
            let marker = marker_of(
                slot_min(Some(slot_node(property))) as int,
                slot_max(Some(slot_node(property))) as int,
            );
            &&& min == 0 && max > 1 ==> marker == "*"@
            &&& min == 1 && max > 1 ==> marker == "+"@
            &&& min == 1 && max == 1 ==> marker == ""@
            &&& min == 0 && max == 1 ==> marker == "?"@
            &&& min == 0 && max == 0 ==> marker == "?"@
        }),
{
    lemma_slot_round_trip(property);
}

/// Every class document that is emitted can be read: it has the classes and the slots of
/// its shapes, and its one prefix builds the predicates.
pub proof fn lemma_emitted_document_is_read(id: Option<Seq<char>>, shapes: Seq<ShapeView>)
    ensures
        section_of(linkml_document(id, shapes), "classes"@) == Some(class_entries(shapes)),
        slots_of(linkml_document(id, shapes)) == slot_entries(shapes),
        prefix_of(linkml_document(id, shapes)) == Some(DEFAULT_PREFIX@),
        shex_of(linkml_document(id, shapes)) is Some,
{
    reveal_strlit("id");
    reveal_strlit("prefixes");
    reveal_strlit("classes");
    reveal_strlit("slots");
    reveal_with_fuel(first_from, 5);
    let root = linkml_document(id, shapes)->Mapping_0;
    assert("id"@.len() == 2);
    assert("prefixes"@.len() == 8);
    assert("classes"@.len() == 7);
    assert("slots"@.len() == 5);
    assert(root[0].key == NodeView::Text("id"@));
    assert(root[1].key == NodeView::Text("prefixes"@));
    assert(root[2].key == NodeView::Text("classes"@));
    assert(root[3].key == NodeView::Text("slots"@));
    assert(NodeView::Text("id"@) != NodeView::Text("prefixes"@));
    assert(NodeView::Text("id"@) != NodeView::Text("classes"@));
    assert(NodeView::Text("id"@) != NodeView::Text("slots"@));
    assert(NodeView::Text("prefixes"@) != NodeView::Text("classes"@));
    assert(NodeView::Text("prefixes"@) != NodeView::Text("slots"@));
    assert(NodeView::Text("classes"@) != NodeView::Text("slots"@));
    let prefixes = root[1].value->Mapping_0;
    assert(prefixes.len() == 1);
    assert(text_pair()(prefixes[0]));
}

/// The line that is read back for a slot of an emitted class document: it shows the
/// range and the cardinality of the last property that was declared with the name of
/// the slot.
pub proof fn lemma_emitted_slot_line(
    id: Option<Seq<char>>,
    shapes: Seq<ShapeView>,
    name: Seq<char>,
)
    requires
        last_declared(shapes, name) is Some,
    ensures
        ({
            let document = linkml_document(id, shapes);
            let property = last_declared(shapes, name)->0;
            slot_line(prefix_of(document), slots_of(document), name) == "  "@ + (DEFAULT_PREFIX@
                + ":"@ + name) + " "@ + constraint_of(property.range) + marker_of(
                count_read(property.min, 0) as int,
                count_read(property.max, 1) as int,
            ) + " ;\n"@
        }),
{
    lemma_emitted_document_is_read(id, shapes);
    lemma_last_declaration_wins(shapes, name);
    lemma_slot_round_trip(last_declared(shapes, name)->0);
}

/// The entries of the mapping that stands under `key` in the root of a document.
fn section<'a>(document: &'a GenericNode, key: &str) -> (found: Option<&'a Vec<Entry>>)
    ensures
        match found {
            Some(entries) => section_of(document@, key@) == Some(entry_views(entries@)),
            None => section_of(document@, key@) is None,
        },
{
    match document.untagged().get(key) {
        Some(GenericNode::Mapping(entries)) => Some(entries),
        _ => None,
    }
}

/// The prefix label of a document.
fn prefix_label(document: &GenericNode) -> (found: Option<&str>)
    ensures
        option_view(found) == prefix_of(document@),
{
    match section(document, "prefixes") {
        Some(entries) => {
            let ghost views = entry_views(entries@);
            let mut at: usize = 0;
            while at < entries.len()
                invariant
                    at <= entries.len(),
                    views == entry_views(entries@),
                    section_of(document@, "prefixes"@) == Some(views),
                    first_from(views, text_pair(), at as int) == first_from(views, text_pair(), 0),
                decreases entries.len() - at,
            {
                let label = match (&entries[at].key, &entries[at].value) {
                    (GenericNode::Text(label), GenericNode::Text(_)) => Some(label.as_str()),
                    _ => None,
                };
                assert(label.is_some() == text_pair()(views[at as int]));
                if let Some(found) = label {
                    assert(views[at as int].key.text() == Some(found@));
                    return label;
                }
                at = at + 1;
            }
            None
        },
        None => None,
    }
}

/// The predicate of a slot.
fn predicate_for(prefix: Option<&str>, slot: &str) -> (predicate: String)
    ensures
        predicate@ == predicate_of(
            option_view(prefix),
            slot@,
        ),
{
    match prefix {
        Some(label) => {
            let mut predicate = label.to_owned();
            predicate.append(":");
            predicate.append(slot);
            predicate
        },
        None => {
            let mut predicate = DEFAULT_NAMESPACE.to_owned();
            predicate.append(slot);
            predicate
        },
    }
}

/// The cardinality marker for a least and a greatest number of values: `*` for none or
/// more, `+` for one or more, nothing for exactly one, and `?` otherwise.
pub fn cardinality_marker(min: i64, max: i64) -> (marker: &'static str)
    ensures
        marker@ == marker_of(min as int, max as int),
{
    if min == 0 && max > 1 {
        "*"
    } else if min == 1 && max > 1 {
        "+"
    } else if min == 1 && max == 1 {
        ""
    } else {
        "?"
    }
}

/// The datatype constraint that a range is written as: ` xsd:integer` for `integer`, and
/// nothing for any other range.
pub fn range_constraint(range: &str) -> (constraint: &'static str)
    ensures
        constraint@ == constraint_of(range@),
{
    if str_eq(range, "integer") {
        " xsd:integer"
    } else {
        ""
    }
}

/// The line of a slot.
fn line_for(prefix: Option<&str>, slots: &Vec<Entry>, slot: &str) -> (line: String)
    ensures
        line@ == slot_line(
            option_view(prefix),
            entry_views(slots@),
            slot@,
        ),
{
    let definition = lookup_entry(slots, slot);
    let ghost definition_view = lookup(entry_views(slots@), slot@);
    let mut range: &str = "string";
    let mut min: i64 = 0;
    let mut max: i64 = 1;
    if let Some(GenericNode::Mapping(fields)) = definition {
        if let Some(value) = lookup_entry(fields, "range") {
            if let Some(text) = value.untagged().as_str() {
                range = text;
            }
        }
        if let Some(value) = lookup_entry(fields, "min_count") {
            if let Some(count) = value.untagged().as_i64() {
                min = count;
            }
        }
        if let Some(value) = lookup_entry(fields, "max_count") {
            if let Some(count) = value.untagged().as_i64() {
                max = count;
            }
        }
    }
    assert(range@ == slot_range(definition_view));
    assert(min == slot_min(definition_view));
    assert(max == slot_max(definition_view));
    let predicate = predicate_for(prefix, slot);
    let mut line = "  ".to_owned();
    line.append(predicate.as_str());
    line.append(" ");
    line.append(range_constraint(range));
    line.append(cardinality_marker(min, max));
    line.append(" ;\n");
    line
}

/// The block of a class.
fn block_for(prefix: Option<&str>, slots: &Vec<Entry>, name: &str, class: &GenericNode) -> (block:
    String)
    ensures
        block@ == class_block(
            option_view(prefix),
            entry_views(slots@),
            name@,
            class@,
        ),
{
    let ghost prefix_view = option_view(prefix);
    let mut block = "<".to_owned();
    block.append(name);
    block.append("> IRI\n");
    if let GenericNode::Mapping(fields) = class {
        if let Some(GenericNode::Sequence(names)) = lookup_entry(fields, "slots") {
            block.append("{\n");
            let ghost views = node_views(names@);
            let mut lines = String::new();
            let mut i: usize = 0;
            assert(lines@ =~= slot_lines(prefix_view, entry_views(slots@), views.take(0)));
            while i < names.len()
                invariant
                    i <= names.len(),
                    prefix_view == option_view(prefix),
                    views == node_views(names@),
                    lines@ == slot_lines(prefix_view, entry_views(slots@), views.take(i as int)),
                decreases names.len() - i,
            {
                proof {
                    assert(views.take(i + 1).drop_last() =~= views.take(i as int));
                    assert(views.take(i + 1).last() == views[i as int]);
                }
                if let GenericNode::Text(slot) = &names[i] {
                    let line = line_for(prefix, slots, slot.as_str());
                    lines.append(line.as_str());
                }
                i = i + 1;
            }
            assert(views.take(names.len() as int) =~= views);
            block.append(lines.as_str());
            block.append("}\n\n");
        }
    }
    block
}

/// Writes a class document as shape expressions: one block for each class, in the order
/// of the classes. Fails where the document has no `classes` mapping, and only there.
pub fn linkml_to_shex(document: &GenericNode) -> (outcome: Result<String, ConvertError>)
    ensures
        match shex_of(document@) {
            Some(text) => outcome matches Ok(written) && written@ == text,
            None => outcome matches Err(ConvertError::MissingClasses),
        },
{
    let prefix = prefix_label(document);
    let ghost prefix_view = prefix_of(document@);
    let classes = match section(document, "classes") {
        Some(classes) => classes,
        None => {
            return Err(ConvertError::MissingClasses);
        },
    };
    let no_slots: Vec<Entry> = Vec::new();
    let slots = match section(document, "slots") {
        Some(slots) => slots,
        None => {
            assert(entry_views(no_slots@) =~= Seq::empty());
            &no_slots
        },
    };
    let ghost views = entry_views(classes@);
    let mut written = String::new();
    let mut i: usize = 0;
    assert(written@ =~= class_blocks(prefix_view, entry_views(slots@), views.take(0)));
    while i < classes.len()
        invariant
            i <= classes.len(),
            prefix_view == option_view(prefix),
            views == entry_views(classes@),
            written@ == class_blocks(prefix_view, entry_views(slots@), views.take(i as int)),
        decreases classes.len() - i,
    {
        proof {
            assert(views.take(i + 1).drop_last() =~= views.take(i as int));
            assert(views.take(i + 1).last() == views[i as int]);
        }
        if let GenericNode::Text(name) = &classes[i].key {
            let block = block_for(prefix, slots, name.as_str(), &classes[i].value);
            written.append(block.as_str());
        }
        i = i + 1;
    }
    assert(views.take(classes.len() as int) =~= views);
    Ok(written)
}

/// Reads a class document from YAML and writes it as shape expressions. Fails where the
/// text is not YAML, and where the document has no `classes` mapping.
pub fn linkml_yaml_to_shex(yaml_str: &str) -> (outcome: Result<String, ConvertError>)
    ensures
        match yaml_document(yaml_str@) {
            Some(document) => match shex_of(document) {
                Some(text) => outcome matches Ok(written) && written@ == text,
                None => outcome matches Err(ConvertError::MissingClasses),
            },
            None => outcome matches Err(ConvertError::ParseYaml(_)),
        },
{
    match parse_yaml(yaml_str) {
        Ok(value) => {
            let document = node_from_yaml(&value);
            linkml_to_shex(&document)
        },
        Err(error) => Err(ConvertError::ParseYaml(error)),
    }
}

} // verus!
