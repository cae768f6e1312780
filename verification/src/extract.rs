//! From a parsed schema to shapes: the range and the property of a constraint, the
//! properties of a shape body, and the search for shape declarations.

use crate::mapping::{first_from, lookup, lookup_entry};
use crate::node::{entry_views, node_views, Entry, EntryView, GenericNode, NodeView};
use crate::shape::{property_views, shape_views, PropertyInfo, PropertyView, ShapeInfo, ShapeView};
use crate::text::{
    is_separator, lemma_local_part, local_name, local_part, local_start, starts_with, str_eq,
};
use vstd::prelude::*;

verus! {

/// The namespace of the primitive datatypes.
pub const XSD_NAMESPACE: &'static str = "http://www.w3.org/2001/XMLSchema#";

/// The datatype of the range `integer`.
pub const XSD_INTEGER: &'static str = "http://www.w3.org/2001/XMLSchema#integer";

/// The datatype of the range `number`.
pub const XSD_DECIMAL: &'static str = "http://www.w3.org/2001/XMLSchema#decimal";

/// The datatype of the range `boolean`.
pub const XSD_BOOLEAN: &'static str = "http://www.w3.org/2001/XMLSchema#boolean";

/// The predicate of a constraint that names none.
pub const UNKNOWN_PREDICATE: &'static str = "<unknown>";

/// The text under the key `key`, where the first entry under it holds a text.
pub open spec fn text_under(entries: Seq<EntryView>, key: Seq<char>) -> Option<Seq<char>> {
    match lookup(entries, key) {
        Some(node) => node.text(),
        None => None,
    }
}

/// The non-negative integer under the key `key`, where the first entry under it holds one.
pub open spec fn unsigned_under(entries: Seq<EntryView>, key: Seq<char>) -> Option<u64> {
    match lookup(entries, key) {
        Some(node) => node.unsigned(),
        None => None,
    }
}

/// The range that a datatype identifier stands for: the tag of a known primitive type,
/// `string` for any other identifier of the primitive namespace, and the identifier itself
/// for one outside it.
pub open spec fn datatype_range(datatype: Seq<char>) -> Seq<char> {
    if datatype == XSD_INTEGER@ {
        "integer"@
    } else if datatype == XSD_DECIMAL@ {
        "number"@
    } else if datatype == XSD_BOOLEAN@ {
        "boolean"@
    } else if XSD_NAMESPACE@.is_prefix_of(datatype) {
        "string"@
    } else {
        datatype
    }
}

/// The range that a value class stands for: the text itself, the `reference` text of a
/// mapping, and `string` otherwise.
pub open spec fn value_class_range(value_class: NodeView) -> Seq<char> {
    match value_class {
        NodeView::Text(label) => label,
        NodeView::Mapping(fields) => match text_under(fields, "reference"@) {
            Some(label) => label,
            None => "string"@,
        },
        _ => "string"@,
    }
}

/// The range of a constraint. The first of these decides: a `datatype` text, a `nodeKind`
/// text, a `valueClass`; without any of them the range is `string`.
pub open spec fn range_of(constraint: Seq<EntryView>) -> Seq<char> {
    match text_under(constraint, "datatype"@) {
        Some(datatype) => datatype_range(datatype),
        None => match text_under(constraint, "nodeKind"@) {
            Some(_) => "string"@,
            None => match lookup(constraint, "valueClass"@) {
                Some(value_class) => value_class_range(value_class),
                None => "string"@,
            },
        },
    }
}

/// The property that a constraint describes.
pub open spec fn property_of(constraint: Seq<EntryView>) -> PropertyView {
    let predicate = match text_under(constraint, "predicate"@) {
        Some(p) => p,
        None => UNKNOWN_PREDICATE@,
    };
    PropertyView {
        name: local_part(predicate),
        predicate,
        range: range_of(constraint),
        min: unsigned_under(constraint, "min"@),
        max: unsigned_under(constraint, "max"@),
    }
}

/// The name of a property is what follows the last `/`, `#` or `:` of its predicate,
/// and the whole predicate where it holds none of them.
pub proof fn lemma_name_derivation(constraint: Seq<EntryView>)
    ensures
        ({
            let property = property_of(constraint);
            let cut = local_start(property.predicate);
            &&& 0 <= cut <= property.predicate.len()
            &&& property.name == property.predicate.skip(cut)
            &&& cut > 0 ==> is_separator(property.predicate[cut - 1])
            &&& forall|i: int|
                0 <= i < property.name.len() ==> !is_separator(#[trigger] property.name[i])
            &&& (forall|i: int|
                0 <= i < property.predicate.len() ==> !is_separator(
                    #[trigger] property.predicate[i],
                )) ==> property.name == property.predicate
        }),
{
    lemma_local_part(property_of(constraint).predicate);
}

/// The text under the key `key`, where the first entry under it holds a text.
fn text_entry<'a>(entries: &'a Vec<Entry>, key: &str) -> (found: Option<&'a str>)
    ensures
        match found {
            Some(s) => text_under(entry_views(entries@), key@) == Some(s@),
            None => text_under(entry_views(entries@), key@) is None,
        },
{
    match lookup_entry(entries, key) {
        Some(node) => node.as_str(),
        None => None,
    }
}

/// The non-negative integer under the key `key`, where the first entry under it holds one.
fn unsigned_entry(entries: &Vec<Entry>, key: &str) -> (found: Option<u64>)
    ensures
        found == unsigned_under(entry_views(entries@), key@),
{
    match lookup_entry(entries, key) {
        Some(node) => node.as_u64(),
        None => None,
    }
}

/// The range that a datatype identifier stands for.
fn range_from_datatype(datatype: &str) -> (range: String)
    ensures
        range@ == datatype_range(datatype@),
{
    if str_eq(datatype, XSD_INTEGER) {
        "integer".to_owned()
    } else if str_eq(datatype, XSD_DECIMAL) {
        "number".to_owned()
    } else if str_eq(datatype, XSD_BOOLEAN) {
        "boolean".to_owned()
    } else if starts_with(datatype, XSD_NAMESPACE) {
        "string".to_owned()
    } else {
        datatype.to_owned()
    }
}

/// The range of a constraint: the type of its values, or the shape they must have.
pub fn infer_range_from_tc(constraint: &Vec<Entry>) -> (range: String)
    ensures
        range@ == range_of(entry_views(constraint@)),
{
    if let Some(datatype) = text_entry(constraint, "datatype") {
        range_from_datatype(datatype)
    } else if let Some(_kind) = text_entry(constraint, "nodeKind") {
        "string".to_owned()
    } else if let Some(value_class) = lookup_entry(constraint, "valueClass") {
        match value_class {
            GenericNode::Text(label) => label.clone(),
            GenericNode::Mapping(fields) => match text_entry(fields, "reference") {
                Some(label) => label.to_owned(),
                None => "string".to_owned(),
            },
            _ => "string".to_owned(),
        }
    } else {
        "string".to_owned()
    }
}

/// The property that a constraint describes: its predicate, the local name of the
/// predicate, its range and its cardinality.
pub fn build_prop_from_tc(constraint: &Vec<Entry>) -> (property: PropertyInfo)
    ensures
        property@ == property_of(entry_views(constraint@)),
{
    let predicate = match text_entry(constraint, "predicate") {
        Some(p) => p.to_owned(),
        None => UNKNOWN_PREDICATE.to_owned(),
    };
    let name = local_name(predicate.as_str());
    let range = infer_range_from_tc(constraint);
    let min = unsigned_entry(constraint, "min");
    let max = unsigned_entry(constraint, "max");
    PropertyInfo { name, predicate, range, min, max }
}

/// The value under `first`, or else the value under `second`.
pub open spec fn either(node: NodeView, first: Seq<char>, second: Seq<char>) -> Option<NodeView> {
    match node.get(first) {
        Some(found) => Some(found),
        None => node.get(second),
    }
}

/// The property of a constraint; none for a node that is no mapping.
pub open spec fn constraint_property(node: NodeView) -> Option<PropertyView> {
    match node {
        NodeView::Mapping(constraint) => Some(property_of(constraint)),
        _ => None,
    }
}

/// The property of a constraint that has a `predicate` key; none for any other node.
pub open spec fn predicate_property(node: NodeView) -> Option<PropertyView> {
    match node {
        NodeView::Mapping(constraint) => if lookup(constraint, "predicate"@) is Some {
            Some(property_of(constraint))
        } else {
            None
        },
        _ => None,
    }
}

/// One property for each mapping among `items`, in their order.
pub open spec fn constraint_properties(items: Seq<NodeView>) -> Seq<PropertyView> {
    items.filter_map(|node: NodeView| constraint_property(node))
}

/// One property for each mapping with a `predicate` key among `items`, in their order.
pub open spec fn predicate_properties(items: Seq<NodeView>) -> Seq<PropertyView> {
    items.filter_map(|node: NodeView| predicate_property(node))
}

/// The properties of the triple constraints that `holder` lists under `tripleConstraints`
/// or else `triple_constraints`; none where it lists no sequence there.
pub open spec fn listed_constraints(holder: NodeView) -> Seq<PropertyView> {
    match either(holder, "tripleConstraints"@, "triple_constraints"@) {
        Some(NodeView::Sequence(items)) => constraint_properties(items),
        _ => Seq::empty(),
    }
}

/// The properties of the items with a predicate that `expression` lists under `items` or
/// else `expressions`; none where it lists no sequence there.
pub open spec fn listed_items(expression: NodeView) -> Seq<PropertyView> {
    match either(expression, "items"@, "expressions"@) {
        Some(NodeView::Sequence(items)) => predicate_properties(items),
        _ => Seq::empty(),
    }
}

/// The properties found in the expression of a shape body, which stands under
/// `expression` or else `shapeExpr`: its triple constraints, or else its items.
pub open spec fn nested_properties(body: NodeView) -> Seq<PropertyView> {
    match either(body, "expression"@, "shapeExpr"@) {
        Some(expression) => if listed_constraints(expression).len() > 0 {
            listed_constraints(expression)
        } else {
            listed_items(expression)
        },
        None => Seq::empty(),
    }
}

/// The properties of a shape body. The first source that yields any wins: the triple
/// constraints of its expression, the items of its expression, its own triple
/// constraints. A body that is no mapping has none.
pub open spec fn properties_of(body: NodeView) -> Seq<PropertyView> {
    match body {
        NodeView::Mapping(_) => if nested_properties(body).len() > 0 {
            nested_properties(body)
        } else {
            listed_constraints(body)
        },
        _ => Seq::empty(),
    }
}

/// The value under `first`, or else the value under `second`.
fn get_either<'a>(node: &'a GenericNode, first: &str, second: &str) -> (found: Option<
    &'a GenericNode,
>)
    ensures
        match found {
            Some(n) => either(node@, first@, second@) == Some(n@),
            None => either(node@, first@, second@) is None,
        },
{
    match node.get(first) {
        Some(found) => Some(found),
        None => node.get(second),
    }
}

/// The properties of the triple constraints that `holder` lists.
fn props_from_constraints(holder: &GenericNode) -> (properties: Vec<PropertyInfo>)
    ensures
        property_views(properties@) == listed_constraints(holder@),
{
    let mut properties: Vec<PropertyInfo> = Vec::new();
    if let Some(GenericNode::Sequence(items)) = get_either(
        holder,
        "tripleConstraints",
        "triple_constraints",
    ) {
        let ghost nodes = node_views(items@);
        let mut i: usize = 0;
        assert(property_views(properties@) =~= constraint_properties(nodes.take(0)));
        while i < items.len()
            invariant
                i <= items.len(),
                nodes == node_views(items@),
                property_views(properties@) == constraint_properties(nodes.take(i as int)),
            decreases items.len() - i,
        {
            proof {
                nodes.lemma_filter_map_take_succ(
                    |node: NodeView| constraint_property(node),
                    i as int,
                );
            }
            if let GenericNode::Mapping(constraint) = &items[i] {
                let property = build_prop_from_tc(constraint);
                let ghost before = property_views(properties@);
                properties.push(property);
                assert(property_views(properties@) =~= before + seq![property@]);
            }
            i = i + 1;
        }
        assert(nodes.take(items.len() as int) =~= nodes);
    } else {
        assert(property_views(properties@) =~= Seq::empty());
    }
    properties
}

/// The properties of the items with a predicate that `expression` lists.
fn props_from_items(expression: &GenericNode) -> (properties: Vec<PropertyInfo>)
    ensures
        property_views(properties@) == listed_items(expression@),
{
    let mut properties: Vec<PropertyInfo> = Vec::new();
    if let Some(GenericNode::Sequence(items)) = get_either(expression, "items", "expressions") {
        let ghost nodes = node_views(items@);
        let mut i: usize = 0;
        assert(property_views(properties@) =~= predicate_properties(nodes.take(0)));
        while i < items.len()
            invariant
                i <= items.len(),
                nodes == node_views(items@),
                property_views(properties@) == predicate_properties(nodes.take(i as int)),
            decreases items.len() - i,
        {
            proof {
                nodes.lemma_filter_map_take_succ(
                    |node: NodeView| predicate_property(node),
                    i as int,
                );
            }
            if let GenericNode::Mapping(constraint) = &items[i] {
                if lookup_entry(constraint, "predicate").is_some() {
                    let property = build_prop_from_tc(constraint);
                    let ghost before = property_views(properties@);
                    properties.push(property);
                    assert(property_views(properties@) =~= before + seq![property@]);
                }
            }
            i = i + 1;
        }
        assert(nodes.take(items.len() as int) =~= nodes);
    } else {
        assert(property_views(properties@) =~= Seq::empty());
    }
    properties
}

/// The properties found in the expression of a shape body.
fn props_from_expression(body: &GenericNode) -> (properties: Vec<PropertyInfo>)
    ensures
        property_views(properties@) == nested_properties(body@),
{
    match get_either(body, "expression", "shapeExpr") {
        Some(expression) => {
            let constraints = props_from_constraints(expression);
            if constraints.len() > 0 {
                constraints
            } else {
                props_from_items(expression)
            }
        },
        None => {
            let none: Vec<PropertyInfo> = Vec::new();
            assert(property_views(none@) =~= Seq::empty());
            none
        },
    }
}

/// The properties of a shape body, from the first source that yields any: the triple
/// constraints of its expression, the items of its expression, its own triple
/// constraints.
pub fn extract_props_from_shape(body: &GenericNode) -> (properties: Vec<PropertyInfo>)
    ensures
        property_views(properties@) == properties_of(body@),
{
    match body {
        GenericNode::Mapping(_) => {
            let nested = props_from_expression(body);
            if nested.len() > 0 {
                nested
            } else {
                props_from_constraints(body)
            }
        },
        _ => {
            let none: Vec<PropertyInfo> = Vec::new();
            assert(property_views(none@) =~= Seq::empty());
            none
        },
    }
}

/// Whether a mapping names a shape container: one of its keys is `shapeExprs`, `shapes`
/// or `shapeDecls`.
pub open spec fn names_container(entries: Seq<EntryView>) -> bool {
    lookup(entries, "shapeExprs"@) is Some || lookup(entries, "shapes"@) is Some || lookup(
        entries,
        "shapeDecls"@,
    ) is Some
}

/// The entries whose value is a mapping.
pub open spec fn holds_mapping() -> spec_fn(EntryView) -> bool {
    |e: EntryView| e.value is Mapping
}

/// The position of the shape declarations of a mapping: where it names a container, the
/// first entry whose value is a mapping, whatever its key. The length of `entries` where
/// the mapping names no container or holds no mapping.
///
/// This is the one container of the mapping: where the position is in range, the search
/// reads the declarations there and goes no deeper into the mapping.
pub open spec fn container_position(entries: Seq<EntryView>) -> int {
    if names_container(entries) {
        first_from(entries, holds_mapping(), 0)
    } else {
        entries.len() as int
    }
}

/// The shape that an entry declares: its key is the label and its value the shape body.
/// A key that is no text and a body without properties declare no shape.
pub open spec fn declared_shape(declaration: EntryView) -> Option<ShapeView> {
    match declaration.key {
        NodeView::Text(label) => {
            let properties = properties_of(declaration.value);
            if properties.len() > 0 {
                Some(ShapeView { id: label, name: label, properties })
            } else {
                None
            }
        },
        _ => None,
    }
}

/// The shapes that the entries of a container declare, in their order.
pub open spec fn declared_shapes(declarations: Seq<EntryView>) -> Seq<ShapeView> {
    declarations.filter_map(|declaration: EntryView| declared_shape(declaration))
}

/// The shapes found in a tree, depth first. A mapping with a container yields the shapes
/// declared there and nothing from its other entries; any other mapping yields what its
/// values hold, a sequence what its items hold, in their order.
pub open spec fn shapes_of(node: NodeView) -> Seq<ShapeView>
    decreases node,
{
    match node {
        NodeView::Mapping(entries) => {
            let at = container_position(entries);
            if 0 <= at < entries.len() {
                match entries[at].value {
                    NodeView::Mapping(declarations) => declared_shapes(declarations),
                    _ => Seq::empty(),
                }
            } else {
                shapes_in_values(entries)
            }
        },
        NodeView::Sequence(items) => shapes_in_items(items),
        _ => Seq::empty(),
    }
}

/// The shapes found in the items of a sequence, item after item.
pub open spec fn shapes_in_items(items: Seq<NodeView>) -> Seq<ShapeView>
    decreases items,
{
    if items.len() == 0 {
        Seq::empty()
    } else {
        shapes_in_items(items.drop_last()) + shapes_of(items.last())
    }
}

/// The shapes found in the values of the entries of a mapping, entry after entry.
pub open spec fn shapes_in_values(entries: Seq<EntryView>) -> Seq<ShapeView>
    decreases entries,
{
    if entries.len() == 0 {
        Seq::empty()
    } else {
        shapes_in_values(entries.drop_last()) + shapes_of(entries.last().value)
    }
}

/// The position of the shape declarations of a mapping, or its length where it has none.
pub fn find_container(entries: &Vec<Entry>) -> (at: usize)
    ensures
        at == container_position(entry_views(entries@)),
        at <= entries.len(),
        at < entries.len() ==> entries[at as int].value is Mapping,
{
    let ghost views = entry_views(entries@);
    let named = lookup_entry(entries, "shapeExprs").is_some() || lookup_entry(
        entries,
        "shapes",
    ).is_some() || lookup_entry(entries, "shapeDecls").is_some();
    if !named {
        return entries.len();
    }
    let mut at: usize = 0;
    while at < entries.len()
        invariant
            at <= entries.len(),
            views == entry_views(entries@),
            names_container(views),
            first_from(views, holds_mapping(), at as int) == first_from(views, holds_mapping(), 0),
        decreases entries.len() - at,
    {
        let found = match &entries[at].value {
            GenericNode::Mapping(_) => true,
            _ => false,
        };
        assert(found == holds_mapping()(views[at as int]));
        if found {
            return at;
        }
        at = at + 1;
    }
    at
}

/// Adds to `found` the shapes that `declarations` declare.
fn collect_declared(declarations: &Vec<Entry>, found: &mut Vec<ShapeInfo>)
    ensures
        shape_views(final(found)@) == shape_views(old(found)@) + declared_shapes(
            entry_views(declarations@),
        ),
{
    let ghost start = shape_views(found@);
    let ghost views = entry_views(declarations@);
    let mut i: usize = 0;
    assert(shape_views(found@) =~= start + declared_shapes(views.take(0)));
    while i < declarations.len()
        invariant
            i <= declarations.len(),
            views == entry_views(declarations@),
            shape_views(found@) == start + declared_shapes(views.take(i as int)),
        decreases declarations.len() - i,
    {
        proof {
            views.lemma_filter_map_take_succ(
                |declaration: EntryView| declared_shape(declaration),
                i as int,
            );
        }
        let properties = extract_props_from_shape(&declarations[i].value);
        if let GenericNode::Text(label) = &declarations[i].key {
            if properties.len() > 0 {
                let shape = ShapeInfo { id: label.clone(), name: label.clone(), properties };
                let ghost before = shape_views(found@);
                found.push(shape);
                assert(shape_views(found@) =~= before + seq![shape@]);
                assert(before + seq![shape@] =~= start + (declared_shapes(views.take(i as int))
                    + seq![shape@]));
            }
        }
        i = i + 1;
    }
    assert(views.take(declarations.len() as int) =~= views);
}

/// Adds to `found` the shapes found in `node`, depth first.
fn walk_for_shapes(node: &GenericNode, found: &mut Vec<ShapeInfo>)
    ensures
        shape_views(final(found)@) == shape_views(old(found)@) + shapes_of(node@),
    decreases node,
{
    let ghost start = shape_views(found@);
    match node {
        GenericNode::Mapping(entries) => {
            let at = find_container(entries);
            if at < entries.len() {
                match &entries[at].value {
                    GenericNode::Mapping(declarations) => {
                        collect_declared(declarations, found);
                    },
                    _ => {},
                }
            } else {
                let ghost views = entry_views(entries@);
                let mut i: usize = 0;
                assert(shape_views(found@) =~= start + shapes_in_values(views.take(0)));
                while i < entries.len()
                    invariant
                        i <= entries.len(),
                        *node == GenericNode::Mapping(*entries),
                        views == entry_views(entries@),
                        shape_views(found@) == start + shapes_in_values(views.take(i as int)),
                    decreases entries.len() - i,
                {
                    assert(decreases_to!(node => entries[i as int].value)) by {
                        assert(node->Mapping_0 == *entries);
                        assert(decreases_to!(*entries => entries[i as int]));
                    }
                    walk_for_shapes(&entries[i].value, found);
                    proof {
                        let next = views.take(i + 1);
                        assert(next.drop_last() =~= views.take(i as int));
                        assert(next.last() == views[i as int]);
                        assert(shape_views(found@) =~= start + shapes_in_values(next));
                    }
                    i = i + 1;
                }
                assert(views.take(entries.len() as int) =~= views);
            }
        },
        GenericNode::Sequence(items) => {
            let ghost views = node_views(items@);
            let mut i: usize = 0;
            assert(shape_views(found@) =~= start + shapes_in_items(views.take(0)));
            while i < items.len()
                invariant
                    i <= items.len(),
                    *node == GenericNode::Sequence(*items),
                    views == node_views(items@),
                    shape_views(found@) == start + shapes_in_items(views.take(i as int)),
                decreases items.len() - i,
            {
                assert(decreases_to!(node => items[i as int])) by {
                    assert(node->Sequence_0 == *items);
                    assert(decreases_to!(*items => items[i as int]));
                }
                walk_for_shapes(&items[i], found);
                proof {
                    let next = views.take(i + 1);
                    assert(next.drop_last() =~= views.take(i as int));
                    assert(next.last() == views[i as int]);
                    assert(shape_views(found@) =~= start + shapes_in_items(next));
                }
                i = i + 1;
            }
            assert(views.take(items.len() as int) =~= views);
        },
        _ => {
            assert(shape_views(found@) =~= start + Seq::empty());
        },
    }
}

/// The shapes that a parsed schema declares, in the order in which a depth-first search
/// finds them. A tree that holds none gives an empty list.
pub fn extract_shapes_from_ast(ast: &GenericNode) -> (shapes: Vec<ShapeInfo>)
    ensures
        shape_views(shapes@) == shapes_of(ast@),
{
    let mut shapes: Vec<ShapeInfo> = Vec::new();
    assert(shape_views(shapes@) =~= Seq::empty());
    walk_for_shapes(ast, &mut shapes);
    assert(Seq::<ShapeView>::empty() + shapes_of(ast@) =~= shapes_of(ast@));
    shapes
}

/// Whether no mapping of the tree names a shape container. The tree is what the search
/// walks: the values of mappings and the items of sequences.
pub open spec fn free_of_containers(node: NodeView) -> bool
    decreases node,
{
    match node {
        NodeView::Mapping(entries) => !names_container(entries) && forall|i: int|
            0 <= i < entries.len() ==> free_of_containers(#[trigger] entries[i].value),
        NodeView::Sequence(items) => forall|i: int|
            0 <= i < items.len() ==> free_of_containers(#[trigger] items[i]),
        _ => true,
    }
}

/// Whether every shape has a property, and its label both as id and as name.
pub open spec fn all_populated(shapes: Seq<ShapeView>) -> bool {
    forall|i: int|
        0 <= i < shapes.len() ==> (#[trigger] shapes[i]).properties.len() > 0 && shapes[i].id
            == shapes[i].name
}

/// A tree without any shape container yields no shape.
pub proof fn lemma_no_container_no_shapes(node: NodeView)
    requires
        free_of_containers(node),
    ensures
        shapes_of(node) == Seq::<ShapeView>::empty(),
    decreases node,
{
    match node {
        NodeView::Mapping(entries) => {
            lemma_no_container_in_values(entries);
        },
        NodeView::Sequence(items) => {
            lemma_no_container_in_items(items);
        },
        _ => {},
    }
}

proof fn lemma_no_container_in_items(items: Seq<NodeView>)
    requires
        forall|i: int| 0 <= i < items.len() ==> free_of_containers(#[trigger] items[i]),
    ensures
        shapes_in_items(items) == Seq::<ShapeView>::empty(),
    decreases items,
{
    if items.len() > 0 {
        let before = items.drop_last();
        assert forall|i: int| 0 <= i < before.len() implies free_of_containers(
            #[trigger] before[i],
        ) by {
            assert(before[i] == items[i]);
        }
        lemma_no_container_in_items(before);
        lemma_no_container_no_shapes(items.last());
    }
}

proof fn lemma_no_container_in_values(entries: Seq<EntryView>)
    requires
        forall|i: int| 0 <= i < entries.len() ==> free_of_containers(#[trigger] entries[i].value),
    ensures
        shapes_in_values(entries) == Seq::<ShapeView>::empty(),
    decreases entries,
{
    if entries.len() > 0 {
        let before = entries.drop_last();
        assert forall|i: int| 0 <= i < before.len() implies free_of_containers(
            #[trigger] before[i].value,
        ) by {
            assert(before[i] == entries[i]);
        }
        lemma_no_container_in_values(before);
        lemma_no_container_no_shapes(entries.last().value);
    }
}

/// No shape without properties is ever kept: every shape found in a tree has at least one
/// property, and its label both as id and as name.
pub proof fn lemma_shapes_are_populated(node: NodeView)
    ensures
        all_populated(shapes_of(node)),
    decreases node,
{
    match node {
        NodeView::Mapping(entries) => {
            let at = container_position(entries);
            if 0 <= at < entries.len() {
                match entries[at].value {
                    NodeView::Mapping(declarations) => {
                        lemma_declared_are_populated(declarations);
                    },
                    _ => {},
                }
            } else {
                lemma_values_are_populated(entries);
            }
        },
        NodeView::Sequence(items) => {
            lemma_items_are_populated(items);
        },
        _ => {},
    }
}

proof fn lemma_declared_are_populated(declarations: Seq<EntryView>)
    ensures
        all_populated(declared_shapes(declarations)),
    decreases declarations.len(),
{
    if declarations.len() > 0 {
        lemma_declared_are_populated(declarations.drop_last());
    }
}

proof fn lemma_items_are_populated(items: Seq<NodeView>)
    ensures
        all_populated(shapes_in_items(items)),
    decreases items,
{
    if items.len() > 0 {
        lemma_items_are_populated(items.drop_last());
        lemma_shapes_are_populated(items.last());
    }
}

proof fn lemma_values_are_populated(entries: Seq<EntryView>)
    ensures
        all_populated(shapes_in_values(entries)),
    decreases entries,
{
    if entries.len() > 0 {
        lemma_values_are_populated(entries.drop_last());
        lemma_shapes_are_populated(entries.last().value);
    }
}

} // verus!
