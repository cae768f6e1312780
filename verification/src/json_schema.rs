//! The JSON Schema of a list of shapes.

use crate::mapping::{
    entry, first_from, insert_entry, is_plain, key_position, lemma_lookup_upsert,
    lemma_upsert_plain, lookup, plain_entries, text_entry, upsert,
};
use crate::node::{entry_views, node_views, text_node, Entry, EntryView, GenericNode, NodeView};
use crate::shape::{
    last_named, last_shape, property_views, shape_views, PropertyInfo, PropertyView, ShapeInfo,
    ShapeView,
};
use crate::text::str_eq;
use vstd::prelude::*;

verus! {

/// The dialect that an emitted schema declares.
pub const SCHEMA_DIALECT: &'static str = "http://json-schema.org/draft-07/schema#";

/// The identifier of an emitted schema.
pub const SCHEMA_ID: &'static str = "http://example.org/generated-schema";

/// The JSON type of a range: that of the primitive tag, and `string` for any other
/// range, the label of a shape among them.
pub open spec fn json_type_of(range: Seq<char>) -> Seq<char> {
    if range == "integer"@ {
        "integer"@
    } else if range == "number"@ {
        "number"@
    } else if range == "boolean"@ {
        "boolean"@
    } else {
        "string"@
    }
}

/// The schema of a property: its type and nothing else.
pub open spec fn type_schema(range: Seq<char>) -> NodeView {
    NodeView::Mapping(seq![entry("type"@, NodeView::Text(json_type_of(range)))])
}

/// The schemas of the properties, each under its name. A later property of the same name
/// takes the place of the earlier one.
pub open spec fn property_schemas(properties: Seq<PropertyView>) -> Seq<EntryView>
    decreases properties.len(),
{
    if properties.len() == 0 {
        Seq::empty()
    } else {
        upsert(
            property_schemas(properties.drop_last()),
            properties.last().name,
            type_schema(properties.last().range),
        )
    }
}

/// Whether a property must be there: its least number of values is given and is not 0.
pub open spec fn is_required(property: PropertyView) -> bool {
    property.min matches Some(min) && min > 0
}

/// The name of a property that must be there; none for any other property.
pub open spec fn required_name(property: PropertyView) -> Option<NodeView> {
    if is_required(property) {
        Some(NodeView::Text(property.name))
    } else {
        None
    }
}

/// The names of the properties that must be there, once for each such property and in
/// their order.
pub open spec fn required_names(properties: Seq<PropertyView>) -> Seq<NodeView> {
    properties.filter_map(|property: PropertyView| required_name(property))
}

/// The `required` entry of a definition: there where a name is required, and only there.
pub open spec fn required_entries(names: Seq<NodeView>) -> Seq<EntryView> {
    if names.len() > 0 {
        seq![entry("required"@, NodeView::Sequence(names))]
    } else {
        Seq::empty()
    }
}

/// The definition of a shape: an object with the schemas of its properties and the list
/// of the required ones.
pub open spec fn definition_of(shape: ShapeView) -> NodeView {
    NodeView::Mapping(
        seq![
            entry("type"@, NodeView::Text("object"@)),
            entry(
                "properties"@,
                NodeView::Mapping(property_schemas(shape.properties)),
            ),
        ] + required_entries(required_names(shape.properties)),
    )
}

/// The definitions of the shapes, each under its name. A later shape of the same name
/// takes the place of the earlier one.
pub open spec fn definitions(shapes: Seq<ShapeView>) -> Seq<EntryView>
    decreases shapes.len(),
{
    if shapes.len() == 0 {
        Seq::empty()
    } else {
        upsert(definitions(shapes.drop_last()), shapes.last().name, definition_of(shapes.last()))
    }
}

/// The schema document of a list of shapes: the dialect, the identifier and the
/// definitions, in this order.
pub open spec fn json_schema_document(shapes: Seq<ShapeView>) -> NodeView {
    NodeView::Mapping(
        seq![
            entry("$schema"@, NodeView::Text(SCHEMA_DIALECT@)),
            entry("$id"@, NodeView::Text(SCHEMA_ID@)),
            entry("definitions"@, NodeView::Mapping(definitions(shapes))),
        ],
    )
}

/// A property is named in the required list exactly where its least number of values is
/// given and greater than 0: the list names every such property, and every name in it is
/// that of such a property.
pub proof fn lemma_required_names(properties: Seq<PropertyView>)
    ensures
        forall|i: int|
            0 <= i < properties.len() && is_required(#[trigger] properties[i]) ==> required_names(
                properties,
            ).contains(NodeView::Text(properties[i].name)),
        forall|k: int|
            #![trigger required_names(properties)[k]]
            0 <= k < required_names(properties).len() ==> exists|i: int|
                0 <= i < properties.len() && is_required(#[trigger] properties[i])
                    && required_names(properties)[k] == NodeView::Text(properties[i].name),
    decreases properties.len(),
{
    let names = required_names(properties);
    if properties.len() > 0 {
        let before = properties.drop_last();
        let earlier = required_names(before);
        lemma_required_names(before);
        assert forall|i: int|
            0 <= i < properties.len() && is_required(
                #[trigger] properties[i],
            ) implies names.contains(NodeView::Text(properties[i].name)) by {
            if i < before.len() {
                assert(before[i] == properties[i]);
                let k = choose|k: int|
                    0 <= k < earlier.len() && earlier[k] == NodeView::Text(properties[i].name);
                assert(names[k] == earlier[k]);
            } else {
                assert(names[earlier.len() as int] == NodeView::Text(properties[i].name));
            }
        }
        assert forall|k: int| 0 <= k < names.len() implies exists|i: int|
            0 <= i < properties.len() && is_required(#[trigger] properties[i])
                && #[trigger] names[k] == NodeView::Text(properties[i].name) by {
            if k < earlier.len() {
                assert(names[k] == earlier[k]);
                let i = choose|i: int|
                    0 <= i < before.len() && is_required(#[trigger] before[i]) && earlier[k]
                        == NodeView::Text(before[i].name);
                assert(before[i] == properties[i]);
            } else {
                assert(is_required(properties[properties.len() - 1]));
            }
        }
    }
}

/// A definition has a `required` entry where one of the properties is required, and only
/// there; the entry holds the required names.
pub proof fn lemma_required_entry(shape: ShapeView)
    ensures
        lookup(definition_of(shape)->Mapping_0, "required"@) is Some <==> exists|i: int|
            0 <= i < shape.properties.len() && is_required(#[trigger] shape.properties[i]),
        lookup(definition_of(shape)->Mapping_0, "required"@) is Some ==> lookup(
            definition_of(shape)->Mapping_0,
            "required"@,
        ) == Some(NodeView::Sequence(required_names(shape.properties))),
{
    reveal_strlit("type");
    reveal_strlit("properties");
    reveal_strlit("required");
    let entries = definition_of(shape)->Mapping_0;
    let names = required_names(shape.properties);
    lemma_required_names(shape.properties);
    assert("type"@.len() == 4);
    assert("properties"@.len() == 10);
    assert("required"@.len() == 8);
    reveal_with_fuel(first_from, 4);
    if names.len() > 0 {
        assert(entries.len() == 3);
        assert(entries[2] == entry("required"@, NodeView::Sequence(names)));
        assert(names[0] is Text);
    } else {
        assert(entries.len() == 2);
        assert forall|i: int| 0 <= i < shape.properties.len() implies !is_required(
            #[trigger] shape.properties[i],
        ) by {
            if is_required(shape.properties[i]) {
                assert(names.contains(NodeView::Text(shape.properties[i].name)));
            }
        }
    }
}

/// The schema of a property is plain.
pub proof fn lemma_type_schema_plain(range: Seq<char>)
    ensures
        is_plain(type_schema(range)),
{
    let only = type_schema(range)->Mapping_0;
    assert(only.len() == 1);
    assert forall|i: int| 0 <= i < only.len() implies (#[trigger] only[i]).key is Text && is_plain(
        only[i].value,
    ) by {
        assert(only[i].value is Text);
    }
}

/// The schemas of properties are plain entries.
pub proof fn lemma_property_schemas_plain(properties: Seq<PropertyView>)
    ensures
        plain_entries(property_schemas(properties)),
    decreases properties.len(),
{
    if properties.len() == 0 {
        assert(NodeView::Mapping(property_schemas(properties))->Mapping_0 == Seq::<
            EntryView,
        >::empty());
    } else {
        lemma_property_schemas_plain(properties.drop_last());
        lemma_type_schema_plain(properties.last().range);
        lemma_upsert_plain(
            property_schemas(properties.drop_last()),
            properties.last().name,
            type_schema(properties.last().range),
        );
    }
}

/// The names of the required properties are texts.
proof fn lemma_required_names_plain(properties: Seq<PropertyView>)
    ensures
        is_plain(NodeView::Sequence(required_names(properties))),
{
    let names = required_names(properties);
    assert(NodeView::Sequence(names)->Sequence_0 == names);
    lemma_required_names(properties);
    assert forall|i: int| 0 <= i < names.len() implies is_plain(#[trigger] names[i]) by {
        assert(names[i] is Text);
    }
}

/// The definition of a shape is plain.
pub proof fn lemma_definition_plain(shape: ShapeView)
    ensures
        is_plain(definition_of(shape)),
{
    reveal_strlit("type");
    reveal_strlit("properties");
    reveal_strlit("required");
    lemma_property_schemas_plain(shape.properties);
    lemma_required_names_plain(shape.properties);
    let entries = definition_of(shape)->Mapping_0;
    assert("type"@.len() == 4);
    assert("properties"@.len() == 10);
    assert("required"@.len() == 8);
    assert forall|i: int, j: int| 0 <= i < j < entries.len() implies #[trigger] entries[i].key
        != #[trigger] entries[j].key by {
        assert(entries[i].key is Text && entries[j].key is Text);
    }
    assert forall|i: int| 0 <= i < entries.len() implies (#[trigger] entries[i]).key is Text
        && is_plain(entries[i].value) by {
        if i == 0 {
            assert(entries[i].value is Text);
        }
    }
}

/// The definitions of shapes are plain entries.
pub proof fn lemma_definitions_plain(shapes: Seq<ShapeView>)
    ensures
        plain_entries(definitions(shapes)),
    decreases shapes.len(),
{
    if shapes.len() == 0 {
        assert(NodeView::Mapping(definitions(shapes))->Mapping_0 == Seq::<EntryView>::empty());
    } else {
        lemma_definitions_plain(shapes.drop_last());
        lemma_definition_plain(shapes.last());
        lemma_upsert_plain(
            definitions(shapes.drop_last()),
            shapes.last().name,
            definition_of(shapes.last()),
        );
    }
}

/// A schema document is plain: each of its objects has every key once.
pub proof fn lemma_json_schema_document_plain(shapes: Seq<ShapeView>)
    ensures
        is_plain(json_schema_document(shapes)),
{
    reveal_strlit("$schema");
    reveal_strlit("$id");
    reveal_strlit("definitions");
    lemma_definitions_plain(shapes);
    let entries = json_schema_document(shapes)->Mapping_0;
    assert(entries.len() == 3);
    assert("$schema"@.len() == 7);
    assert("$id"@.len() == 3);
    assert("definitions"@.len() == 11);
    assert forall|i: int, j: int| 0 <= i < j < entries.len() implies #[trigger] entries[i].key
        != #[trigger] entries[j].key by {
        assert(entries[i].key is Text && entries[j].key is Text);
    }
    assert forall|i: int| 0 <= i < entries.len() implies (#[trigger] entries[i]).key is Text
        && is_plain(entries[i].value) by {
        if i < 2 {
            assert(entries[i].value is Text);
        }
    }
}

/// Last write wins: the schema under a name is that of the last property of that name,
/// and a name that no property has is no schema.
pub proof fn lemma_last_schema_wins(properties: Seq<PropertyView>, name: Seq<char>)
    ensures
        lookup(property_schemas(properties), name) == match last_named(properties, name) {
            Some(property) => Some(type_schema(property.range)),
            None => None,
        },
    decreases properties.len(),
{
    if properties.len() > 0 {
        lemma_last_schema_wins(properties.drop_last(), name);
        lemma_lookup_upsert(
            property_schemas(properties.drop_last()),
            properties.last().name,
            type_schema(properties.last().range),
            name,
        );
    } else {
        assert(key_position(Seq::<EntryView>::empty(), name) == 0);
    }
}

/// Last write wins: the definition under a name is that of the last shape of that name,
/// and a name that no shape has is no definition.
pub proof fn lemma_last_definition_wins(shapes: Seq<ShapeView>, name: Seq<char>)
    ensures
        lookup(definitions(shapes), name) == match last_shape(shapes, name) {
            Some(shape) => Some(definition_of(shape)),
            None => None,
        },
    decreases shapes.len(),
{
    if shapes.len() > 0 {
        lemma_last_definition_wins(shapes.drop_last(), name);
        lemma_lookup_upsert(
            definitions(shapes.drop_last()),
            shapes.last().name,
            definition_of(shapes.last()),
            name,
        );
    } else {
        assert(key_position(Seq::<EntryView>::empty(), name) == 0);
    }
}

/// Emitting the schema of the same shapes twice gives the same document: what is
/// emitted depends on nothing but the shapes.
pub proof fn lemma_json_schema_emission_repeats(
    shapes: Seq<ShapeView>,
    first: NodeView,
    second: NodeView,
)
    requires
        first == json_schema_document(shapes),
        second == json_schema_document(shapes),
    ensures
        first == second,
{
}

/// The JSON type of a range.
pub fn json_type(range: &str) -> (name: &'static str)
    ensures
        name@ == json_type_of(range@),
{
    if str_eq(range, "integer") {
        "integer"
    } else if str_eq(range, "number") {
        "number"
    } else if str_eq(range, "boolean") {
        "boolean"
    } else {
        "string"
    }
}

/// The schema of a property.
fn schema_for(property: &PropertyInfo) -> (schema: GenericNode)
    ensures
        schema@ == type_schema(property@.range),
{
    let mut fields: Vec<Entry> = Vec::new();
    fields.push(text_entry("type", text_node(json_type(property.range.as_str()))));
    assert(entry_views(fields@) =~= type_schema(property@.range)->Mapping_0);
    GenericNode::Mapping(fields)
}

/// The definition of a shape.
fn definition_for(shape: &ShapeInfo) -> (definition: GenericNode)
    ensures
        definition@ == definition_of(shape@),
{
    let ghost properties = shape@.properties;
    let mut schemas: Vec<Entry> = Vec::new();
    let mut required: Vec<GenericNode> = Vec::new();
    let mut i: usize = 0;
    assert(entry_views(schemas@) =~= property_schemas(properties.take(0)));
    assert(node_views(required@) =~= required_names(properties.take(0)));
    while i < shape.properties.len()
        invariant
            i <= shape.properties.len(),
            properties == property_views(shape.properties@),
            entry_views(schemas@) == property_schemas(properties.take(i as int)),
            node_views(required@) == required_names(properties.take(i as int)),
        decreases shape.properties.len() - i,
    {
        let property = &shape.properties[i];
        proof {
            assert(properties.take(i + 1).drop_last() =~= properties.take(i as int));
            assert(properties.take(i + 1).last() == property@);
            properties.lemma_filter_map_take_succ(
                |property: PropertyView| required_name(property),
                i as int,
            );
        }
        insert_entry(&mut schemas, property.name.clone(), schema_for(property));
        let needed = match property.min {
            Some(min) => min > 0,
            None => false,
        };
        if needed {
            let ghost before = node_views(required@);
            required.push(text_node(property.name.as_str()));
            assert(node_views(required@) =~= before + seq![NodeView::Text(property.name@)]);
        }
        i = i + 1;
    }
    assert(properties.take(shape.properties.len() as int) =~= properties);
    let mut fields: Vec<Entry> = Vec::new();
    fields.push(text_entry("type", text_node("object")));
    fields.push(text_entry("properties", GenericNode::Mapping(schemas)));
    if required.len() > 0 {
        fields.push(text_entry("required", GenericNode::Sequence(required)));
    }
    assert(entry_views(fields@) =~= definition_of(shape@)->Mapping_0);
    GenericNode::Mapping(fields)
}

/// The schema document of a list of shapes: a definition for each shape, which types
/// each property by its range and requires those with a least number of values above 0.
pub fn build_json_schema(shapes: &[ShapeInfo]) -> (document: GenericNode)
    ensures
        document@ == json_schema_document(shape_views(shapes@)),
        is_plain(document@),
{
    let ghost views = shape_views(shapes@);
    let mut entries: Vec<Entry> = Vec::new();
    let mut i: usize = 0;
    assert(entry_views(entries@) =~= definitions(views.take(0)));
    while i < shapes.len()
        invariant
            i <= shapes.len(),
            views == shape_views(shapes@),
            entry_views(entries@) == definitions(views.take(i as int)),
        decreases shapes.len() - i,
    {
        let shape = &shapes[i];
        proof {
            assert(views.take(i + 1).drop_last() =~= views.take(i as int));
            assert(views.take(i + 1).last() == shape@);
        }
        insert_entry(&mut entries, shape.name.clone(), definition_for(shape));
        i = i + 1;
    }
    assert(views.take(shapes.len() as int) =~= views);
    let mut root: Vec<Entry> = Vec::new();
    root.push(text_entry("$schema", text_node(SCHEMA_DIALECT)));
    root.push(text_entry("$id", text_node(SCHEMA_ID)));
    root.push(text_entry("definitions", GenericNode::Mapping(entries)));
    proof {
        assert(entry_views(root@) =~= json_schema_document(views)->Mapping_0);
        lemma_json_schema_document_plain(views);
    }
    GenericNode::Mapping(root)
}

} // verus!
