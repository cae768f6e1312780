use shex2linkml::linkml_to_shex::{cardinality_marker, range_constraint};
use shex2linkml::node::{Entry, GenericNode, Number};
use shex2linkml::{linkml_to_shex, linkml_yaml_to_shex, ConvertError};

fn text(s: &str) -> GenericNode {
    GenericNode::Text(s.to_string())
}

fn unsigned(n: u64) -> GenericNode {
    GenericNode::Number(Number::Unsigned(n))
}

fn entry(key: &str, value: GenericNode) -> Entry {
    Entry { key: text(key), value }
}

fn map(entries: Vec<Entry>) -> GenericNode {
    GenericNode::Mapping(entries)
}

fn seq(items: Vec<GenericNode>) -> GenericNode {
    GenericNode::Sequence(items)
}

fn class(slots: &[&str]) -> GenericNode {
    map(vec![entry("slots", seq(slots.iter().map(|s| text(s)).collect()))])
}

fn slot(range: &str, min: u64, max: u64) -> GenericNode {
    map(vec![entry("range", text(range)), entry("min_count", unsigned(min)), entry("max_count", unsigned(max))])
}

fn written(document: &GenericNode) -> String {
    linkml_to_shex(document).unwrap()
}

#[test]
fn markers_of_the_five_cardinalities() {
    assert_eq!(cardinality_marker(0, 2), "*");
    assert_eq!(cardinality_marker(0, 9223372036854775807), "*");
    assert_eq!(cardinality_marker(1, 2), "+");
    assert_eq!(cardinality_marker(1, 1), "");
    assert_eq!(cardinality_marker(0, 1), "?");
    assert_eq!(cardinality_marker(0, 0), "?");
}

#[test]
fn marker_of_any_other_cardinality_is_optional() {
    assert_eq!(cardinality_marker(2, 5), "?");
    assert_eq!(cardinality_marker(1, 0), "?");
    assert_eq!(cardinality_marker(-1, 3), "?");
    assert_eq!(cardinality_marker(0, -1), "?");
    assert_eq!(cardinality_marker(2, 2), "?");
}

#[test]
fn only_integer_has_a_constraint() {
    assert_eq!(range_constraint("integer"), " xsd:integer");
    assert_eq!(range_constraint("string"), "");
    assert_eq!(range_constraint("number"), "");
    assert_eq!(range_constraint("boolean"), "");
    assert_eq!(range_constraint("Person"), "");
    assert_eq!(range_constraint("Integer"), "");
}

#[test]
fn document_without_classes_is_refused() {
    assert!(matches!(linkml_to_shex(&map(vec![])), Err(ConvertError::MissingClasses)));
    assert!(matches!(
        linkml_to_shex(&map(vec![entry("slots", map(vec![]))])),
        Err(ConvertError::MissingClasses)
    ));
    assert!(matches!(linkml_to_shex(&text("classes")), Err(ConvertError::MissingClasses)));
    assert!(matches!(linkml_to_shex(&GenericNode::Null), Err(ConvertError::MissingClasses)));
}

#[test]
fn classes_must_be_a_mapping() {
    assert!(matches!(
        linkml_to_shex(&map(vec![entry("classes", seq(vec![]))])),
        Err(ConvertError::MissingClasses)
    ));
    assert!(matches!(
        linkml_to_shex(&map(vec![entry("classes", GenericNode::Null)])),
        Err(ConvertError::MissingClasses)
    ));
    assert!(matches!(
        linkml_to_shex(&map(vec![entry(
            "classes",
            GenericNode::Tagged("!t".to_string(), Box::new(map(vec![])))
        )])),
        Err(ConvertError::MissingClasses)
    ));
}

#[test]
fn document_without_any_class_is_empty_text() {
    assert_eq!(written(&map(vec![entry("classes", map(vec![]))])), "");
}

#[test]
fn missing_slots_mapping_is_tolerated() {
    let document = map(vec![entry("classes", map(vec![entry("Person", class(&["name"]))]))]);
    assert_eq!(written(&document), "<Person> IRI\n{\n  http://example.org/name ? ;\n}\n\n");
}

#[test]
fn class_without_slot_list_has_only_its_label() {
    let document = map(vec![entry(
        "classes",
        map(vec![
            entry("A", map(vec![])),
            entry("B", text("x")),
            entry("C", map(vec![entry("slots", text("name"))])),
            entry("D", class(&[])),
        ]),
    )]);
    assert_eq!(written(&document), "<A> IRI\n<B> IRI\n<C> IRI\n<D> IRI\n{\n}\n\n");
}

#[test]
fn first_prefix_builds_every_predicate() {
    let document = map(vec![
        entry("prefixes", map(vec![entry("foaf", text("http://xmlns.com/foaf/0.1/")), entry("ex", text("http://example.org/"))])),
        entry("classes", map(vec![entry("Person", class(&["name", "age"]))])),
        entry("slots", map(vec![entry("name", slot("string", 1, 1)), entry("age", slot("integer", 0, 1))])),
    ]);
    assert_eq!(written(&document), "<Person> IRI\n{\n  foaf:name  ;\n  foaf:age  xsd:integer? ;\n}\n\n");
}

#[test]
fn prefix_entry_must_map_text_to_text() {
    let document = map(vec![
        entry(
            "prefixes",
            map(vec![
                entry("a", unsigned(1)),
                Entry { key: unsigned(2), value: text("http://two/") },
                entry("b", text("http://b/")),
            ]),
        ),
        entry("classes", map(vec![entry("C", class(&["s"]))])),
    ]);
    assert_eq!(written(&document), "<C> IRI\n{\n  b:s ? ;\n}\n\n");
}

#[test]
fn empty_or_missing_prefixes_use_default_namespace() {
    let classes = || entry("classes", map(vec![entry("C", class(&["s"]))]));
    let expected = "<C> IRI\n{\n  http://example.org/s ? ;\n}\n\n";
    assert_eq!(written(&map(vec![classes()])), expected);
    assert_eq!(written(&map(vec![entry("prefixes", map(vec![])), classes()])), expected);
    assert_eq!(written(&map(vec![entry("prefixes", text("ex")), classes()])), expected);
    assert_eq!(written(&map(vec![entry("prefixes", map(vec![entry("a", unsigned(1))])), classes()])), expected);
}

#[test]
fn slot_lines_show_marker_and_constraint() {
    let document = map(vec![
        entry("classes", map(vec![entry("C", class(&["a", "b", "c", "d", "e", "f"]))])),
        entry(
            "slots",
            map(vec![
                entry("a", slot("integer", 0, 5)),
                entry("b", slot("string", 1, 5)),
                entry("c", slot("Person", 1, 1)),
                entry("d", slot("number", 0, 1)),
                entry("e", slot("boolean", 0, 0)),
                entry("f", slot("integer", 2, 3)),
            ]),
        ),
    ]);
    assert_eq!(
        written(&document),
        "<C> IRI\n{\n  http://example.org/a  xsd:integer* ;\n  http://example.org/b + ;\n  http://example.org/c  ;\n  http://example.org/d ? ;\n  http://example.org/e ? ;\n  http://example.org/f  xsd:integer? ;\n}\n\n"
    );
}

#[test]
fn slot_definition_defaults() {
    let document = map(vec![
        entry("classes", map(vec![entry("C", class(&["a", "b", "c", "d", "e"]))])),
        entry(
            "slots",
            map(vec![
                entry("a", map(vec![])),
                entry("b", map(vec![entry("max_count", unsigned(3))])),
                entry("c", map(vec![entry("min_count", unsigned(1))])),
                entry("d", text("no mapping")),
                entry("e", map(vec![entry("range", unsigned(1)), entry("min_count", text("1")), entry("max_count", GenericNode::Null)])),
            ]),
        ),
    ]);
    assert_eq!(
        written(&document),
        "<C> IRI\n{\n  http://example.org/a ? ;\n  http://example.org/b * ;\n  http://example.org/c  ;\n  http://example.org/d ? ;\n  http://example.org/e ? ;\n}\n\n"
    );
}

#[test]
fn counts_that_do_not_fit_are_read_as_default() {
    let document = map(vec![
        entry("classes", map(vec![entry("C", class(&["a", "b"]))])),
        entry(
            "slots",
            map(vec![
                entry("a", slot("string", 1, 9223372036854775808)),
                entry("b", slot("string", 1, 9223372036854775807)),
            ]),
        ),
    ]);
    assert_eq!(written(&document), "<C> IRI\n{\n  http://example.org/a  ;\n  http://example.org/b + ;\n}\n\n");
}

#[test]
fn negative_counts_are_read() {
    let document = map(vec![
        entry("classes", map(vec![entry("C", class(&["a"]))])),
        entry(
            "slots",
            map(vec![entry(
                "a",
                map(vec![entry("min_count", GenericNode::Number(Number::Signed(-1))), entry("max_count", unsigned(4))]),
            )]),
        ),
    ]);
    assert_eq!(written(&document), "<C> IRI\n{\n  http://example.org/a ? ;\n}\n\n");
}

#[test]
fn keys_and_slot_names_that_are_no_texts_are_skipped() {
    let document = map(vec![entry(
        "classes",
        map(vec![
            Entry { key: unsigned(1), value: class(&["x"]) },
            entry("C", map(vec![entry("slots", seq(vec![unsigned(2), text("s"), GenericNode::Null]))])),
        ]),
    )]);
    assert_eq!(written(&document), "<C> IRI\n{\n  http://example.org/s ? ;\n}\n\n");
}

#[test]
fn names_are_not_escaped() {
    let document = map(vec![entry("classes", map(vec![entry("A> <B", class(&["x y;"]))]))]);
    assert_eq!(written(&document), "<A> <B> IRI\n{\n  http://example.org/x y; ? ;\n}\n\n");
}

#[test]
fn classes_come_in_document_order() {
    let document = map(vec![entry(
        "classes",
        map(vec![entry("B", class(&["x"])), entry("A", class(&["y", "x"]))]),
    )]);
    assert_eq!(
        written(&document),
        "<B> IRI\n{\n  http://example.org/x ? ;\n}\n\n<A> IRI\n{\n  http://example.org/y ? ;\n  http://example.org/x ? ;\n}\n\n"
    );
}

#[test]
fn tags_are_looked_through_where_values_are_read() {
    let tagged = |node| GenericNode::Tagged("!t".to_string(), Box::new(node));
    let document = tagged(map(vec![
        entry("classes", map(vec![entry("C", class(&["a"]))])),
        entry(
            "slots",
            map(vec![entry(
                "a",
                map(vec![
                    entry("range", tagged(tagged(text("integer")))),
                    entry("min_count", tagged(unsigned(1))),
                    entry("max_count", tagged(unsigned(7))),
                ]),
            )]),
        ),
    ]));
    assert_eq!(written(&document), "<C> IRI\n{\n  http://example.org/a  xsd:integer+ ;\n}\n\n");
}

#[test]
fn tagged_containers_are_no_containers() {
    let tagged = |node| GenericNode::Tagged("!t".to_string(), Box::new(node));
    let document = map(vec![
        entry("classes", map(vec![entry("C", tagged(class(&["a"]))), entry("D", map(vec![entry("slots", tagged(seq(vec![text("a")])))]))])),
        entry("slots", tagged(map(vec![entry("a", slot("integer", 1, 1))]))),
    ]);
    assert_eq!(written(&document), "<C> IRI\n<D> IRI\n");
}

#[test]
fn yaml_text_is_written_as_shape_expressions() {
    let yaml = "id: people\nprefixes:\n  ex: http://example.org/\n  other: http://other.org/\nclasses:\n  Person:\n    slots:\n    - name\n    - age\n    - friend\n  Empty: {}\nslots:\n  name:\n    range: string\n    min_count: 1\n    max_count: 1\n  age:\n    range: integer\n  friend:\n    range: Person\n    max_count: 10\n";
    assert_eq!(
        linkml_yaml_to_shex(yaml).unwrap(),
        "<Person> IRI\n{\n  ex:name  ;\n  ex:age  xsd:integer? ;\n  ex:friend * ;\n}\n\n<Empty> IRI\n"
    );
}

#[test]
fn yaml_with_tags_and_other_keys_is_read() {
    let yaml = "classes: {A: {slots: [x, 7]}, 3: {slots: [x]}}\nslots: {x: {range: !r integer, min_count: 1, max_count: 5}}\n";
    assert_eq!(linkml_yaml_to_shex(yaml).unwrap(), "<A> IRI\n{\n  http://example.org/x  xsd:integer+ ;\n}\n\n");
}

#[test]
fn text_that_is_no_yaml_is_refused() {
    assert!(matches!(linkml_yaml_to_shex("classes: [1, 2"), Err(ConvertError::ParseYaml(_))));
    assert!(matches!(linkml_yaml_to_shex("a: b: c: d"), Err(ConvertError::ParseYaml(_))));
}

#[test]
fn yaml_without_classes_is_refused() {
    assert!(matches!(linkml_yaml_to_shex("slots: {}\n"), Err(ConvertError::MissingClasses)));
    assert!(matches!(linkml_yaml_to_shex(""), Err(ConvertError::MissingClasses)));
    assert!(matches!(linkml_yaml_to_shex("just a text"), Err(ConvertError::MissingClasses)));
    assert!(matches!(linkml_yaml_to_shex("classes: [a, b]\n"), Err(ConvertError::MissingClasses)));
}

#[test]
fn yaml_text_of_a_text_is_no_document() {
    let document = "id: schema\nclasses:\n  Person: {}\n";
    assert_eq!(linkml_yaml_to_shex(document).unwrap(), "<Person> IRI\n");
    let quoted = serde_yaml::to_string(document).unwrap();
    assert!(matches!(linkml_yaml_to_shex(&quoted), Err(ConvertError::MissingClasses)));
}

#[test]
fn errors_say_what_failed() {
    let json_error = serde_json::from_str::<serde_json::Value>("{").unwrap_err();
    let yaml_error = || serde_yaml::from_str::<serde_yaml::Value>("[").unwrap_err();
    assert_eq!(ConvertError::SerializeAst(json_error).context(), "serialize AST");
    assert_eq!(ConvertError::SerializeYaml(yaml_error()).context(), "serialize LinkML YAML");
    assert_eq!(ConvertError::ParseYaml(yaml_error()).context(), "parsing linkml yaml");
    assert_eq!(ConvertError::MissingClasses.context(), "LinkML YAML missing `classes` mapping");
    assert_eq!(linkml_yaml_to_shex("[").unwrap_err().context(), "parsing linkml yaml");
    assert_eq!(linkml_yaml_to_shex("{}").unwrap_err().context(), "LinkML YAML missing `classes` mapping");
}

#[test]
fn copies_are_equal_trees() {
    let document = map(vec![
        entry("classes", map(vec![entry("C", class(&["a"]))])),
        entry("numbers", seq(vec![unsigned(1), GenericNode::Number(Number::Signed(-2)), GenericNode::Number(Number::Real("0.5".to_string()))])),
        entry("tagged", GenericNode::Tagged("!t".to_string(), Box::new(GenericNode::Bool(true)))),
        Entry { key: GenericNode::Null, value: text("x") },
    ]);
    let copy = document.clone();
    assert_eq!(copy, document);
    assert_eq!(written(&copy), written(&document));
}
