//! The class document of a list of shapes.

use crate::mapping::{
    entry, insert_entry, is_plain, key_position, lemma_lookup_upsert, lemma_upsert_plain, lookup,
    plain_entries, text_entry, upsert,
};
use crate::node::{
    entry_views, node_views, text_node, Entry, EntryView, GenericNode, NodeView, Number,
    NumberView,
};
use crate::shape::{
    last_named, last_shape, property_views, shape_views, PropertyInfo, PropertyView, ShapeInfo,
    ShapeView,
};
use crate::text::option_view;
use vstd::prelude::*;

verus! {

/// The identifier of a document that was given none.
pub const DEFAULT_ID: &'static str = "schema";

/// The one prefix of an emitted document.
pub const DEFAULT_PREFIX: &'static str = "ex";

/// The namespace that the prefix of an emitted document stands for.
pub const DEFAULT_PREFIX_IRI: &'static str = "http://example.org/";

/// The names of the properties, one text for each, in their order.
pub open spec fn slot_names(properties: Seq<PropertyView>) -> Seq<NodeView> {
    Seq::new(properties.len(), |i: int| NodeView::Text(properties[i].name))
}

/// The class of a shape: the names of its properties under `slots`.
pub open spec fn class_node(shape: ShapeView) -> NodeView {
    NodeView::Mapping(seq![entry("slots"@, NodeView::Sequence(slot_names(shape.properties)))])
}

/// The entry of a count under `key`, where there is a count.
pub open spec fn count_entries(key: Seq<char>, count: Option<u64>) -> Seq<EntryView> {
    match count {
        Some(n) => seq![entry(key, NodeView::Number(NumberView::Unsigned(n)))],
        None => Seq::empty(),
    }
}

/// The slot of a property: its range, and its counts where it has them.
pub open spec fn slot_node(property: PropertyView) -> NodeView {
    NodeView::Mapping(
        seq![entry("range"@, NodeView::Text(property.range))] + count_entries(
            "min_count"@,
            property.min,
        ) + count_entries("max_count"@, property.max),
    )
}

/// The classes of the shapes, each under its name. A later shape of the same name takes
/// the place of the earlier one.
pub open spec fn class_entries(shapes: Seq<ShapeView>) -> Seq<EntryView>
    decreases shapes.len(),
{
    if shapes.len() == 0 {
        Seq::empty()
    } else {
        upsert(class_entries(shapes.drop_last()), shapes.last().name, class_node(shapes.last()))
    }
}

/// The slots after those of the properties were put into `slots`, each under its name. A
/// later property of the same name takes the place of the earlier one.
pub open spec fn property_slots(slots: Seq<EntryView>, properties: Seq<PropertyView>) -> Seq<
    EntryView,
>
    decreases properties.len(),
{
    if properties.len() == 0 {
        slots
    } else {
        upsert(
            property_slots(slots, properties.drop_last()),
            properties.last().name,
            slot_node(properties.last()),
        )
    }
}

/// The slots of the properties of the shapes, shape after shape.
pub open spec fn slot_entries(shapes: Seq<ShapeView>) -> Seq<EntryView>
    decreases shapes.len(),
{
    if shapes.len() == 0 {
        Seq::empty()
    } else {
        property_slots(slot_entries(shapes.drop_last()), shapes.last().properties)
    }
}

/// The prefixes of an emitted document: the one prefix with its namespace.
pub open spec fn prefix_node() -> NodeView {
    NodeView::Mapping(seq![entry(DEFAULT_PREFIX@, NodeView::Text(DEFAULT_PREFIX_IRI@))])
}

/// The class document of a list of shapes: its identifier, the one prefix, the classes
/// and the slots, in this order.
pub open spec fn linkml_document(id: Option<Seq<char>>, shapes: Seq<ShapeView>) -> NodeView {
    NodeView::Mapping(
        seq![
            entry(
                "id"@,
                NodeView::Text(
                    match id {
                        Some(given) => given,
                        None => DEFAULT_ID@,
                    },
                ),
            ),
            entry("prefixes"@, prefix_node()),
            entry("classes"@, NodeView::Mapping(class_entries(shapes))),
            entry("slots"@, NodeView::Mapping(slot_entries(shapes))),
        ],
    )
}

/// The slot of a property is plain.
pub proof fn lemma_slot_node_plain(property: PropertyView)
    ensures
        is_plain(slot_node(property)),
{
    reveal_strlit("range");
    reveal_strlit("min_count");
    reveal_strlit("max_count");
    let entries = slot_node(property)->Mapping_0;
    assert("min_count"@[1] == 'i');
    assert("max_count"@[1] == 'a');
    assert("range"@.len() == 5);
    assert("min_count"@.len() == 9);
    assert forall|i: int, j: int| 0 <= i < j < entries.len() implies #[trigger] entries[i].key
        != #[trigger] entries[j].key by {
        assert(entries[i].key is Text && entries[j].key is Text);
    }
    assert forall|i: int| 0 <= i < entries.len() implies (#[trigger] entries[i]).key is Text
        && is_plain(entries[i].value) by {}
}

/// The class of a shape is plain.
pub proof fn lemma_class_node_plain(shape: ShapeView)
    ensures
        is_plain(class_node(shape)),
{
    let names = NodeView::Sequence(slot_names(shape.properties));
    let items = names->Sequence_0;
    assert(items == slot_names(shape.properties));
    assert forall|i: int| 0 <= i < items.len() implies is_plain(#[trigger] items[i]) by {
        assert(items[i] is Text);
    }
    assert(is_plain(names));
    let entries = class_node(shape)->Mapping_0;
    assert(entries.len() == 1);
    assert(entries[0].value == names);
}

/// The classes of shapes are plain entries.
pub proof fn lemma_class_entries_plain(shapes: Seq<ShapeView>)
    ensures
        plain_entries(class_entries(shapes)),
    decreases shapes.len(),
{
    if shapes.len() == 0 {
        assert(NodeView::Mapping(class_entries(shapes))->Mapping_0 == Seq::<EntryView>::empty());
    } else {
        lemma_class_entries_plain(shapes.drop_last());
        lemma_class_node_plain(shapes.last());
        lemma_upsert_plain(
            class_entries(shapes.drop_last()),
            shapes.last().name,
            class_node(shapes.last()),
        );
    }
}

/// Putting the slots of properties into plain entries keeps them plain.
pub proof fn lemma_property_slots_plain(slots: Seq<EntryView>, properties: Seq<PropertyView>)
    requires
        plain_entries(slots),
    ensures
        plain_entries(property_slots(slots, properties)),
    decreases properties.len(),
{
    if properties.len() > 0 {
        lemma_property_slots_plain(slots, properties.drop_last());
        lemma_slot_node_plain(properties.last());
        lemma_upsert_plain(
            property_slots(slots, properties.drop_last()),
            properties.last().name,
            slot_node(properties.last()),
        );
    }
}

/// The slots of shapes are plain entries.
pub proof fn lemma_slot_entries_plain(shapes: Seq<ShapeView>)
    ensures
        plain_entries(slot_entries(shapes)),
    decreases shapes.len(),
{
    if shapes.len() == 0 {
        assert(NodeView::Mapping(slot_entries(shapes))->Mapping_0 == Seq::<EntryView>::empty());
    } else {
        lemma_slot_entries_plain(shapes.drop_last());
        lemma_property_slots_plain(slot_entries(shapes.drop_last()), shapes.last().properties);
    }
}

/// A class document is plain: it can be written out as it stands.
pub proof fn lemma_linkml_document_plain(id: Option<Seq<char>>, shapes: Seq<ShapeView>)
    ensures
        is_plain(linkml_document(id, shapes)),
{
    reveal_strlit("id");
    reveal_strlit("prefixes");
    reveal_strlit("classes");
    reveal_strlit("slots");
    lemma_class_entries_plain(shapes);
    lemma_slot_entries_plain(shapes);
    let prefixes = prefix_node();
    assert(is_plain(prefixes)) by {
        let only = prefixes->Mapping_0;
        assert(only.len() == 1);
        assert forall|i: int| 0 <= i < only.len() implies (#[trigger] only[i]).key is Text
            && is_plain(only[i].value) by {
            assert(only[i].value is Text);
        }
    }
    let entries = linkml_document(id, shapes)->Mapping_0;
    assert(entries.len() == 4);
    assert("id"@.len() == 2);
    assert("prefixes"@.len() == 8);
    assert("classes"@.len() == 7);
    assert("slots"@.len() == 5);
    assert forall|i: int, j: int| 0 <= i < j < entries.len() implies #[trigger] entries[i].key
        != #[trigger] entries[j].key by {
        assert(entries[i].key is Text && entries[j].key is Text);
    }
    assert forall|i: int| 0 <= i < entries.len() implies (#[trigger] entries[i]).key is Text
        && is_plain(entries[i].value) by {}
}

/// The class of a shape.
fn class_for(shape: &ShapeInfo) -> (class: GenericNode)
    ensures
        class@ == class_node(shape@),
{
    let mut names: Vec<GenericNode> = Vec::new();
    let mut i: usize = 0;
    while i < shape.properties.len()
        invariant
            i <= shape.properties.len(),
            names.len() == i,
            forall|k: int|
                0 <= k < i ==> (#[trigger] names[k])@ == NodeView::Text(shape.properties[k].name@),
        decreases shape.properties.len() - i,
    {
        names.push(text_node(shape.properties[i].name.as_str()));
        i = i + 1;
    }
    assert(node_views(names@) =~= slot_names(shape@.properties));
    let mut fields: Vec<Entry> = Vec::new();
    fields.push(text_entry("slots", GenericNode::Sequence(names)));
    assert(entry_views(fields@) =~= class_node(shape@)->Mapping_0);
    GenericNode::Mapping(fields)
}

/// The slot of a property.
fn slot_for(property: &PropertyInfo) -> (slot: GenericNode)
    ensures
        slot@ == slot_node(property@),
{
    let mut fields: Vec<Entry> = Vec::new();
    fields.push(text_entry("range", text_node(property.range.as_str())));
    if let Some(min) = property.min {
        fields.push(text_entry("min_count", GenericNode::Number(Number::Unsigned(min))));
    }
    if let Some(max) = property.max {
        fields.push(text_entry("max_count", GenericNode::Number(Number::Unsigned(max))));
    }
    assert(entry_views(fields@) =~= slot_node(property@)->Mapping_0);
    GenericNode::Mapping(fields)
}

/// The class document of a list of shapes: the identifier given, or `schema` without one,
/// the one prefix, a class for each shape and a slot for each property.
pub fn linkml_tree(input: Option<&str>, shapes: &[ShapeInfo]) -> (document: GenericNode)
    ensures
        document@ == linkml_document(option_view(input), shape_views(shapes@)),
        is_plain(document@),
{
    let ghost views = shape_views(shapes@);
    let mut classes: Vec<Entry> = Vec::new();
    let mut slots: Vec<Entry> = Vec::new();
    let mut i: usize = 0;
    assert(entry_views(classes@) =~= class_entries(views.take(0)));
    assert(entry_views(slots@) =~= slot_entries(views.take(0)));
    while i < shapes.len()
        invariant
            i <= shapes.len(),
            views == shape_views(shapes@),
            entry_views(classes@) == class_entries(views.take(i as int)),
            entry_views(slots@) == slot_entries(views.take(i as int)),
        decreases shapes.len() - i,
    {
        let shape = &shapes[i];
        proof {
            assert(views.take(i + 1).drop_last() =~= views.take(i as int));
            assert(views.take(i + 1).last() == shape@);
        }
        insert_entry(&mut classes, shape.name.clone(), class_for(shape));
        let ghost before = entry_views(slots@);
        let ghost properties = shape@.properties;
        let mut j: usize = 0;
        assert(properties.take(0) =~= Seq::empty());
        while j < shape.properties.len()
            invariant
                j <= shape.properties.len(),
                properties == property_views(shape.properties@),
                entry_views(slots@) == property_slots(before, properties.take(j as int)),
            decreases shape.properties.len() - j,
        {
            let property = &shape.properties[j];
            proof {
                assert(properties.take(j + 1).drop_last() =~= properties.take(j as int));
                assert(properties.take(j + 1).last() == property@);
            }
            insert_entry(&mut slots, property.name.clone(), slot_for(property));
            j = j + 1;
        }
        assert(properties.take(shape.properties.len() as int) =~= properties);
        i = i + 1;
    }
    assert(views.take(shapes.len() as int) =~= views);
    let id = match input {
        Some(given) => given,
        None => DEFAULT_ID,
    };
    let mut prefixes: Vec<Entry> = Vec::new();
    prefixes.push(text_entry(DEFAULT_PREFIX, text_node(DEFAULT_PREFIX_IRI)));
    assert(entry_views(prefixes@) =~= prefix_node()->Mapping_0);
    let mut root: Vec<Entry> = Vec::new();
    root.push(text_entry("id", text_node(id)));
    root.push(text_entry("prefixes", GenericNode::Mapping(prefixes)));
    root.push(text_entry("classes", GenericNode::Mapping(classes)));
    root.push(text_entry("slots", GenericNode::Mapping(slots)));
    proof {
        assert(entry_views(root@) =~= linkml_document(option_view(input), views)->Mapping_0);
        lemma_linkml_document_plain(option_view(input), views);
    }
    GenericNode::Mapping(root)
}

/// The last property with the name `name` among those of the shapes.
pub open spec fn last_declared(shapes: Seq<ShapeView>, name: Seq<char>) -> Option<PropertyView>
    decreases shapes.len(),
{
    if shapes.len() == 0 {
        None
    } else {
        match last_named(shapes.last().properties, name) {
            Some(property) => Some(property),
            None => last_declared(shapes.drop_last(), name),
        }
    }
}

/// Under a name stands the slot of the last property of that name that was put in; a
/// name that no property has keeps what stood there.
pub proof fn lemma_last_property_wins(
    slots: Seq<EntryView>,
    properties: Seq<PropertyView>,
    name: Seq<char>,
)
    ensures
        lookup(property_slots(slots, properties), name) == match last_named(properties, name) {
            Some(property) => Some(slot_node(property)),
            None => lookup(slots, name),
        },
    decreases properties.len(),
{
    if properties.len() > 0 {
        lemma_last_property_wins(slots, properties.drop_last(), name);
        lemma_lookup_upsert(
            property_slots(slots, properties.drop_last()),
            properties.last().name,
            slot_node(properties.last()),
            name,
        );
    }
}

/// Last write wins: the slot under a name is that of the last property of that name in
/// the whole list of shapes, and a name that no property has is no slot.
pub proof fn lemma_last_declaration_wins(shapes: Seq<ShapeView>, name: Seq<char>)
    ensures
        lookup(slot_entries(shapes), name) == match last_declared(shapes, name) {
            Some(property) => Some(slot_node(property)),
            None => None,
        },
    decreases shapes.len(),
{
    if shapes.len() > 0 {
        lemma_last_declaration_wins(shapes.drop_last(), name);
        lemma_last_property_wins(slot_entries(shapes.drop_last()), shapes.last().properties, name);
    } else {
        assert(key_position(Seq::<EntryView>::empty(), name) == 0);
    }
}

/// Last write wins for classes too: the class under a name is that of the last shape of
/// that name, and a name that no shape has is no class.
pub proof fn lemma_last_shape_wins(shapes: Seq<ShapeView>, name: Seq<char>)
    ensures
        lookup(class_entries(shapes), name) == match last_shape(shapes, name) {
            Some(shape) => Some(class_node(shape)),
            None => None,
        },
    decreases shapes.len(),
{
    if shapes.len() > 0 {
        lemma_last_shape_wins(shapes.drop_last(), name);
        lemma_lookup_upsert(
            class_entries(shapes.drop_last()),
            shapes.last().name,
            class_node(shapes.last()),
            name,
        );
    } else {
        assert(key_position(Seq::<EntryView>::empty(), name) == 0);
    }
}

} // verus!
