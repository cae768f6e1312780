use shex2linkml::convert::{build_prop_from_tc, extract_props_from_shape, infer_range_from_tc};
use shex2linkml::extract::{extract_shapes_from_ast, find_container};
use shex2linkml::text::{local_name, starts_with, str_eq};
use shex2linkml::{Entry, GenericNode, Number, PropertyInfo, ShapeInfo};

const XSD: &str = "http://www.w3.org/2001/XMLSchema#";

fn text(s: &str) -> GenericNode {
    GenericNode::Text(s.to_string())
}

fn unsigned(n: u64) -> GenericNode {
    GenericNode::Number(Number::Unsigned(n))
}

fn entry(key: &str, value: GenericNode) -> Entry {
    Entry { key: text(key), value }
}

fn map(entries: Vec<Entry>) -> GenericNode {
    GenericNode::Mapping(entries)
}

fn seq(items: Vec<GenericNode>) -> GenericNode {
    GenericNode::Sequence(items)
}

fn constraint(predicate: &str, datatype: &str) -> GenericNode {
    map(vec![entry("predicate", text(predicate)), entry("datatype", text(datatype))])
}

fn property(name: &str, predicate: &str, range: &str, min: Option<u64>, max: Option<u64>) -> PropertyInfo {
    PropertyInfo {
        name: name.to_string(),
        predicate: predicate.to_string(),
        range: range.to_string(),
        min,
        max,
    }
}

fn person_constraints() -> GenericNode {
    seq(vec![
        constraint("http://example.org/ns/2#name", "http://www.w3.org/2001/XMLSchema#string"),
        map(vec![
            entry("predicate", text("http://example.org/ns/2#age")),
            entry("datatype", text("http://www.w3.org/2001/XMLSchema#integer")),
            entry("min", unsigned(0)),
            entry("max", unsigned(1)),
        ]),
    ])
}

fn person_properties() -> Vec<PropertyInfo> {
    vec![
        property("name", "http://example.org/ns/2#name", "string", None, None),
        property("age", "http://example.org/ns/2#age", "integer", Some(0), Some(1)),
    ]
}

fn range_of(fields: Vec<Entry>) -> String {
    infer_range_from_tc(&fields)
}

#[test]
fn strings_compare_by_their_characters() {
    assert!(str_eq("", ""));
    assert!(str_eq("shapes", "shapes"));
    assert!(!str_eq("shapes", "shape"));
    assert!(!str_eq("shape", "shapes"));
    assert!(!str_eq("shapes", "shapez"));
    assert!(str_eq("é√x", "é√x"));
}

#[test]
fn prefix_test_reads_characters() {
    assert!(starts_with("http://x", "http"));
    assert!(starts_with("http", "http"));
    assert!(starts_with("anything", ""));
    assert!(!starts_with("htt", "http"));
    assert!(!starts_with("xhttp", "http"));
}

#[test]
fn local_name_follows_last_separator() {
    assert_eq!(local_name("http://example.org/ns/2#name"), "name");
    assert_eq!(local_name("http://example.org/ns/age"), "age");
    assert_eq!(local_name("ex:height"), "height");
    assert_eq!(local_name("a#b/c:d"), "d");
    assert_eq!(local_name("a:b#c"), "c");
}

#[test]
fn local_name_without_separator_is_whole() {
    assert_eq!(local_name("plain"), "plain");
    assert_eq!(local_name("<unknown>"), "<unknown>");
    assert_eq!(local_name(""), "");
}

#[test]
fn local_name_after_trailing_separator_is_empty() {
    assert_eq!(local_name("http://example.org/"), "");
    assert_eq!(local_name("ex:"), "");
}

#[test]
fn local_name_counts_characters_not_bytes() {
    assert_eq!(local_name("http://exämple.org/né#nämé"), "nämé");
}

#[test]
fn builds_property_with_name_after_hash() {
    let tc = vec![
        entry("predicate", text("http://example.org/ns/2#age")),
        entry("datatype", text("http://www.w3.org/2001/XMLSchema#integer")),
        entry("min", unsigned(0)),
        entry("max", unsigned(1)),
    ];
    assert_eq!(
        build_prop_from_tc(&tc),
        property("age", "http://example.org/ns/2#age", "integer", Some(0), Some(1))
    );
}

#[test]
fn property_without_predicate_is_unknown() {
    let tc = vec![entry("datatype", text("http://www.w3.org/2001/XMLSchema#boolean"))];
    assert_eq!(build_prop_from_tc(&tc), property("<unknown>", "<unknown>", "boolean", None, None));
}

#[test]
fn property_with_predicate_that_is_no_text_is_unknown() {
    let tc = vec![entry("predicate", unsigned(7))];
    assert_eq!(build_prop_from_tc(&tc), property("<unknown>", "<unknown>", "string", None, None));
}

#[test]
fn counts_must_be_non_negative_integers() {
    let tc = vec![
        entry("predicate", text("ex:p")),
        entry("min", GenericNode::Number(Number::Signed(-1))),
        entry("max", GenericNode::Number(Number::Real("2.5".to_string()))),
    ];
    assert_eq!(build_prop_from_tc(&tc), property("p", "ex:p", "string", None, None));
    let tc = vec![
        entry("predicate", text("ex:p")),
        entry("min", text("1")),
        entry("max", unsigned(18446744073709551615)),
    ];
    assert_eq!(
        build_prop_from_tc(&tc),
        property("p", "ex:p", "string", None, Some(18446744073709551615))
    );
}

#[test]
fn range_of_known_datatypes() {
    assert_eq!(range_of(vec![entry("datatype", text("http://www.w3.org/2001/XMLSchema#integer"))]), "integer");
    assert_eq!(range_of(vec![entry("datatype", text("http://www.w3.org/2001/XMLSchema#decimal"))]), "number");
    assert_eq!(range_of(vec![entry("datatype", text("http://www.w3.org/2001/XMLSchema#boolean"))]), "boolean");
}

#[test]
fn range_of_other_primitive_datatypes_is_string() {
    assert_eq!(range_of(vec![entry("datatype", text("http://www.w3.org/2001/XMLSchema#string"))]), "string");
    assert_eq!(range_of(vec![entry("datatype", text("http://www.w3.org/2001/XMLSchema#dateTime"))]), "string");
    assert_eq!(range_of(vec![entry("datatype", text(XSD))]), "string");
    assert_eq!(range_of(vec![entry("datatype", text("http://www.w3.org/2001/XMLSchema#int"))]), "string");
}

#[test]
fn range_of_foreign_datatype_is_kept() {
    assert_eq!(
        range_of(vec![entry("datatype", text("http://example.org/types#Money"))]),
        "http://example.org/types#Money"
    );
    assert_eq!(range_of(vec![entry("datatype", text("http://www.w3.org/2001/XMLSchema"))]), "http://www.w3.org/2001/XMLSchema");
}

#[test]
fn range_of_node_kind_is_string() {
    assert_eq!(range_of(vec![entry("nodeKind", text("iri"))]), "string");
    assert_eq!(range_of(vec![entry("nodeKind", text("literal"))]), "string");
    assert_eq!(range_of(vec![entry("nodeKind", text("bnode"))]), "string");
}

#[test]
fn range_of_value_class() {
    assert_eq!(range_of(vec![entry("valueClass", text("Address"))]), "Address");
    assert_eq!(
        range_of(vec![entry(
            "valueClass",
            map(vec![entry("type", text("ShapeRef")), entry("reference", text("Address"))])
        )]),
        "Address"
    );
    assert_eq!(range_of(vec![entry("valueClass", map(vec![entry("type", text("ShapeRef"))]))]), "string");
    assert_eq!(
        range_of(vec![entry("valueClass", map(vec![entry("reference", unsigned(1))]))]),
        "string"
    );
    assert_eq!(range_of(vec![entry("valueClass", unsigned(3))]), "string");
    assert_eq!(range_of(vec![entry("valueClass", GenericNode::Null)]), "string");
}

#[test]
fn range_defaults_to_string() {
    assert_eq!(range_of(vec![]), "string");
    assert_eq!(range_of(vec![entry("predicate", text("ex:p"))]), "string");
}

#[test]
fn range_takes_first_key_in_priority() {
    let fields = vec![
        entry("valueClass", text("Address")),
        entry("nodeKind", text("iri")),
        entry("datatype", text("http://www.w3.org/2001/XMLSchema#integer")),
    ];
    assert_eq!(range_of(fields), "integer");
    assert_eq!(
        range_of(vec![entry("valueClass", text("Address")), entry("nodeKind", text("iri"))]),
        "string"
    );
}

#[test]
fn range_skips_key_whose_value_is_no_text() {
    assert_eq!(
        range_of(vec![entry("datatype", unsigned(1)), entry("valueClass", text("Address"))]),
        "Address"
    );
    assert_eq!(
        range_of(vec![entry("datatype", GenericNode::Null), entry("nodeKind", GenericNode::Bool(true))]),
        "string"
    );
}

#[test]
fn properties_from_nested_triple_constraints() {
    let body = map(vec![entry("expression", map(vec![entry("tripleConstraints", person_constraints())]))]);
    assert_eq!(extract_props_from_shape(&body), person_properties());
}

#[test]
fn properties_from_alternative_keys() {
    let body = map(vec![entry("shapeExpr", map(vec![entry("triple_constraints", person_constraints())]))]);
    assert_eq!(extract_props_from_shape(&body), person_properties());
}

#[test]
fn expression_key_wins_over_shape_expr() {
    let body = map(vec![
        entry("shapeExpr", map(vec![entry("tripleConstraints", person_constraints())])),
        entry("expression", text("nothing here")),
    ]);
    assert_eq!(extract_props_from_shape(&body), vec![]);
}

#[test]
fn properties_from_items_need_a_predicate() {
    let items = seq(vec![
        constraint("ex:a", "http://www.w3.org/2001/XMLSchema#decimal"),
        map(vec![entry("datatype", text("http://www.w3.org/2001/XMLSchema#integer"))]),
        text("not a mapping"),
        map(vec![entry("predicate", GenericNode::Null)]),
    ]);
    let body = map(vec![entry("expression", map(vec![entry("items", items)]))]);
    assert_eq!(
        extract_props_from_shape(&body),
        vec![
            property("a", "ex:a", "number", None, None),
            property("<unknown>", "<unknown>", "string", None, None),
        ]
    );
}

#[test]
fn properties_from_expressions_key() {
    let body = map(vec![entry(
        "expression",
        map(vec![entry("expressions", seq(vec![constraint("ex:a", "ex:T")]))]),
    )]);
    assert_eq!(extract_props_from_shape(&body), vec![property("a", "ex:a", "ex:T", None, None)]);
}

#[test]
fn properties_from_direct_triple_constraints() {
    let body = map(vec![entry("tripleConstraints", person_constraints())]);
    assert_eq!(extract_props_from_shape(&body), person_properties());
    let body = map(vec![entry("triple_constraints", person_constraints())]);
    assert_eq!(extract_props_from_shape(&body), person_properties());
}

#[test]
fn first_source_with_properties_wins() {
    let body = map(vec![
        entry("tripleConstraints", seq(vec![constraint("ex:direct", "ex:T")])),
        entry(
            "expression",
            map(vec![
                entry("items", seq(vec![constraint("ex:item", "ex:T")])),
                entry("tripleConstraints", seq(vec![constraint("ex:nested", "ex:T")])),
            ]),
        ),
    ]);
    assert_eq!(
        extract_props_from_shape(&body),
        vec![property("nested", "ex:nested", "ex:T", None, None)]
    );
}

#[test]
fn items_are_read_when_nested_constraints_yield_nothing() {
    let body = map(vec![
        entry("tripleConstraints", seq(vec![constraint("ex:direct", "ex:T")])),
        entry(
            "expression",
            map(vec![
                entry("tripleConstraints", seq(vec![text("skipped")])),
                entry("items", seq(vec![constraint("ex:item", "ex:T")])),
            ]),
        ),
    ]);
    assert_eq!(extract_props_from_shape(&body), vec![property("item", "ex:item", "ex:T", None, None)]);
}

#[test]
fn direct_constraints_are_read_last() {
    let body = map(vec![
        entry("tripleConstraints", seq(vec![constraint("ex:direct", "ex:T")])),
        entry("expression", map(vec![entry("items", seq(vec![map(vec![])]))])),
    ]);
    assert_eq!(
        extract_props_from_shape(&body),
        vec![property("direct", "ex:direct", "ex:T", None, None)]
    );
}

#[test]
fn elements_that_are_no_mappings_are_skipped() {
    let body = map(vec![entry(
        "tripleConstraints",
        seq(vec![unsigned(1), constraint("ex:a", "ex:T"), GenericNode::Null, seq(vec![])]),
    )]);
    assert_eq!(extract_props_from_shape(&body), vec![property("a", "ex:a", "ex:T", None, None)]);
}

#[test]
fn body_that_is_no_mapping_has_no_properties() {
    assert_eq!(extract_props_from_shape(&text("x")), vec![]);
    assert_eq!(extract_props_from_shape(&seq(vec![person_constraints()])), vec![]);
    assert_eq!(extract_props_from_shape(&map(vec![entry("tripleConstraints", text("x"))])), vec![]);
}

fn person_body() -> GenericNode {
    map(vec![entry("expression", map(vec![entry("tripleConstraints", person_constraints())]))])
}

fn person_shape(label: &str) -> ShapeInfo {
    ShapeInfo { id: label.to_string(), name: label.to_string(), properties: person_properties() }
}

#[test]
fn person_constraints_give_one_shape() {
    let ast = map(vec![entry("shapes", map(vec![entry("Person", person_body())]))]);
    assert_eq!(extract_shapes_from_ast(&ast), vec![person_shape("Person")]);
}

#[test]
fn each_container_key_is_recognised() {
    for key in ["shapeExprs", "shapes", "shapeDecls"] {
        let ast = map(vec![entry(key, map(vec![entry("Person", person_body())]))]);
        assert_eq!(extract_shapes_from_ast(&ast), vec![person_shape("Person")]);
    }
    let ast = map(vec![entry("Shapes", map(vec![entry("Person", person_body())]))]);
    assert_eq!(extract_shapes_from_ast(&ast), vec![]);
}

#[test]
fn shape_without_properties_is_dropped() {
    let ast = map(vec![entry(
        "shapes",
        map(vec![
            entry("Empty", map(vec![entry("expression", map(vec![]))])),
            entry("Person", person_body()),
            entry("Text", text("no shape")),
        ]),
    )]);
    assert_eq!(extract_shapes_from_ast(&ast), vec![person_shape("Person")]);
}

#[test]
fn declarations_are_the_first_mapping_value_whatever_its_key() {
    let ast = map(vec![
        entry("type", text("Schema")),
        entry("prefixmap", map(vec![entry("Other", person_body())])),
        entry("shapes", map(vec![entry("Person", person_body())])),
    ]);
    assert_eq!(extract_shapes_from_ast(&ast), vec![person_shape("Other")]);
}

#[test]
fn container_stops_the_search_in_its_mapping() {
    let ast = map(vec![
        entry("shapes", map(vec![entry("Text", text("no shape"))])),
        entry("deeper", map(vec![entry("shapes", map(vec![entry("Person", person_body())]))])),
    ]);
    assert_eq!(extract_shapes_from_ast(&ast), vec![]);
}

#[test]
fn container_key_without_a_mapping_value_goes_deeper() {
    let ast = map(vec![
        entry("shapes", seq(vec![map(vec![entry("shapeDecls", map(vec![entry("A", person_body())]))])])),
        entry("tail", seq(vec![map(vec![entry("shapeExprs", map(vec![entry("B", person_body())]))])])),
    ]);
    assert_eq!(extract_shapes_from_ast(&ast), vec![person_shape("A"), person_shape("B")]);
}

#[test]
fn search_is_depth_first_in_order() {
    let holder = |label: &str| map(vec![entry("shapes", map(vec![entry(label, person_body())]))]);
    let ast = seq(vec![
        map(vec![entry("x", seq(vec![holder("A"), holder("B")])), entry("y", holder("C"))]),
        holder("D"),
    ]);
    assert_eq!(
        extract_shapes_from_ast(&ast),
        vec![person_shape("A"), person_shape("B"), person_shape("C"), person_shape("D")]
    );
}

#[test]
fn duplicate_labels_are_kept() {
    let holder = || map(vec![entry("shapes", map(vec![entry("Person", person_body())]))]);
    let ast = seq(vec![holder(), holder()]);
    assert_eq!(extract_shapes_from_ast(&ast), vec![person_shape("Person"), person_shape("Person")]);
}

#[test]
fn keys_that_are_no_texts_are_no_labels() {
    let ast = map(vec![entry(
        "shapes",
        map(vec![
            Entry { key: unsigned(1), value: person_body() },
            entry("Person", person_body()),
        ]),
    )]);
    assert_eq!(extract_shapes_from_ast(&ast), vec![person_shape("Person")]);
}

#[test]
fn tree_without_container_has_no_shapes() {
    let ast = map(vec![
        entry("a", seq(vec![text("x"), map(vec![entry("Person", person_body())])])),
        entry("b", person_body()),
    ]);
    assert_eq!(extract_shapes_from_ast(&ast), vec![]);
    assert_eq!(extract_shapes_from_ast(&GenericNode::Null), vec![]);
    assert_eq!(extract_shapes_from_ast(&text("shapes")), vec![]);
    assert_eq!(extract_shapes_from_ast(&seq(vec![])), vec![]);
    assert_eq!(extract_shapes_from_ast(&map(vec![])), vec![]);
}

#[test]
fn every_extracted_shape_has_properties() {
    let ast = map(vec![entry(
        "shapes",
        map(vec![
            entry("A", person_body()),
            entry("B", map(vec![])),
            entry("C", map(vec![entry("tripleConstraints", seq(vec![constraint("ex:p", "ex:T")]))])),
        ]),
    )]);
    let shapes = extract_shapes_from_ast(&ast);
    assert_eq!(shapes.len(), 2);
    for shape in shapes.iter() {
        assert!(!shape.properties.is_empty());
        assert_eq!(shape.id, shape.name);
    }
}

#[test]
fn container_position_is_reported() {
    let entries = vec![
        entry("type", text("Schema")),
        entry("shapes", seq(vec![])),
        entry("first", map(vec![])),
        entry("second", map(vec![])),
    ];
    assert_eq!(find_container(&entries), 2);
    let entries = vec![entry("type", text("Schema")), entry("first", map(vec![]))];
    assert_eq!(find_container(&entries), 2);
    let entries = vec![entry("shapes", seq(vec![]))];
    assert_eq!(find_container(&entries), 1);
}
