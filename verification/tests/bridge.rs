use shex2linkml::convert::{build_linkml_doc, shapes_from_rudof_ast};
use shex2linkml::json::node_from_json;
use shex2linkml::yaml::node_from_yaml;
use shex2linkml::{linkml_yaml_to_shex, Entry, GenericNode, Number, ShapeInfo};

fn text(s: &str) -> GenericNode {
    GenericNode::Text(s.to_string())
}

fn unsigned(n: u64) -> GenericNode {
    GenericNode::Number(Number::Unsigned(n))
}

fn signed(n: i64) -> GenericNode {
    GenericNode::Number(Number::Signed(n))
}

fn fraction(s: &str) -> GenericNode {
    GenericNode::Number(Number::Real(s.to_string()))
}

fn entry(key: &str, value: GenericNode) -> Entry {
    Entry { key: text(key), value }
}

fn map(entries: Vec<Entry>) -> GenericNode {
    GenericNode::Mapping(entries)
}

fn seq(items: Vec<GenericNode>) -> GenericNode {
    GenericNode::Sequence(items)
}

fn json(source: &str) -> serde_json::Value {
    serde_json::from_str(source).unwrap()
}

fn yaml(source: &str) -> serde_yaml::Value {
    serde_yaml::from_str(source).unwrap()
}

#[test]
fn json_scalars_become_nodes() {
    assert_eq!(node_from_json(&json("null")), GenericNode::Null);
    assert_eq!(node_from_json(&json("true")), GenericNode::Bool(true));
    assert_eq!(node_from_json(&json("false")), GenericNode::Bool(false));
    assert_eq!(node_from_json(&json("\"shapes\"")), text("shapes"));
    assert_eq!(node_from_json(&json("\"\"")), text(""));
}

#[test]
fn json_numbers_keep_their_kind() {
    assert_eq!(node_from_json(&json("0")), unsigned(0));
    assert_eq!(node_from_json(&json("18446744073709551615")), unsigned(18446744073709551615));
    assert_eq!(node_from_json(&json("-1")), signed(-1));
    assert_eq!(node_from_json(&json("-9223372036854775808")), signed(-9223372036854775808));
    assert_eq!(node_from_json(&json("1.5")), fraction("1.5"));
    assert_eq!(node_from_json(&json("1.0")), fraction("1.0"));
}

#[test]
fn json_arrays_keep_their_order() {
    assert_eq!(node_from_json(&json("[]")), seq(vec![]));
    assert_eq!(
        node_from_json(&json("[3, \"a\", [null], {}]")),
        seq(vec![unsigned(3), text("a"), seq(vec![GenericNode::Null]), map(vec![])])
    );
}

#[test]
fn json_objects_keep_insertion_order() {
    assert_eq!(
        node_from_json(&json("{\"type\": \"Schema\", \"shapes\": [{\"id\": \"b\", \"abstract\": false}], \"a\": {\"z\": 1, \"y\": 2}}")),
        map(vec![
            entry("type", text("Schema")),
            entry("shapes", seq(vec![map(vec![entry("id", text("b")), entry("abstract", GenericNode::Bool(false))])])),
            entry("a", map(vec![entry("z", unsigned(1)), entry("y", unsigned(2))])),
        ])
    );
}

#[test]
fn json_object_built_by_insertion() {
    let mut fields = serde_json::Map::new();
    fields.insert("second".to_string(), serde_json::Value::from(2u64));
    fields.insert("first".to_string(), serde_json::Value::from(-1i64));
    fields.insert("second".to_string(), serde_json::Value::from("again"));
    assert_eq!(
        node_from_json(&serde_json::Value::Object(fields)),
        map(vec![entry("second", text("again")), entry("first", signed(-1))])
    );
}

#[test]
fn yaml_scalars_become_nodes() {
    assert_eq!(node_from_yaml(&yaml("~")), GenericNode::Null);
    assert_eq!(node_from_yaml(&yaml("")), GenericNode::Null);
    assert_eq!(node_from_yaml(&yaml("true")), GenericNode::Bool(true));
    assert_eq!(node_from_yaml(&yaml("text")), text("text"));
    assert_eq!(node_from_yaml(&yaml("'1'")), text("1"));
    assert_eq!(node_from_yaml(&yaml("1")), unsigned(1));
    assert_eq!(node_from_yaml(&yaml("-1")), signed(-1));
    assert_eq!(node_from_yaml(&yaml("2.5")), fraction("2.5"));
    assert_eq!(node_from_yaml(&yaml(".inf")), fraction(".inf"));
}

#[test]
fn yaml_collections_keep_their_order() {
    assert_eq!(
        node_from_yaml(&yaml("b: [1, x]\na: {d: ~, c: true}\n")),
        map(vec![
            entry("b", seq(vec![unsigned(1), text("x")])),
            entry("a", map(vec![entry("d", GenericNode::Null), entry("c", GenericNode::Bool(true))])),
        ])
    );
}

#[test]
fn yaml_keys_may_be_any_node() {
    assert_eq!(
        node_from_yaml(&yaml("1: one\ntrue: yes\n[a, b]: list\n~: nothing\n")),
        map(vec![
            Entry { key: unsigned(1), value: text("one") },
            Entry { key: GenericNode::Bool(true), value: text("yes") },
            Entry { key: seq(vec![text("a"), text("b")]), value: text("list") },
            Entry { key: GenericNode::Null, value: text("nothing") },
        ])
    );
}

#[test]
fn yaml_tags_are_kept() {
    assert_eq!(
        node_from_yaml(&yaml("a: !unit 3\nb: !list [x]\n")),
        map(vec![
            entry("a", GenericNode::Tagged("!unit".to_string(), Box::new(unsigned(3)))),
            entry("b", GenericNode::Tagged("!list".to_string(), Box::new(seq(vec![text("x")])))),
        ])
    );
}

#[test]
fn emitted_text_keeps_insertion_order() {
    let shapes = vec![
        ShapeInfo { id: "b".to_string(), name: "b".to_string(), properties: vec![] },
        ShapeInfo { id: "a".to_string(), name: "a".to_string(), properties: vec![] },
    ];
    assert_eq!(
        build_linkml_doc(Some("z"), shapes.as_slice()).unwrap(),
        "id: z\nprefixes:\n  ex: http://example.org/\nclasses:\n  b:\n    slots: []\n  a:\n    slots: []\nslots: {}\n"
    );
}

fn parse(shex: &str) -> shex_ast::Schema {
    let base = url::Url::parse("http://schema.example/ns/1").unwrap();
    let base_iri = iri_s::iris::IriS::from_url(&base);
    shex_compact::ShExParser::parse(shex, None, &base_iri).expect("parse shex")
}

#[test]
fn parsed_schema_lists_shapes_in_a_sequence() {
    let schema = parse(
        "PREFIX ex: <http://example.org/ns/2#>\nPREFIX xsd: <http://www.w3.org/2001/XMLSchema#>\nex:Person {\n  ex:name xsd:string ;\n  ex:age xsd:integer ? ;\n}\n",
    );
    let tree = node_from_json(&serde_json::to_value(&schema).unwrap());
    let shapes = tree.get("shapes").unwrap().as_sequence().unwrap();
    assert_eq!(shapes.len(), 1);
    assert_eq!(shapes[0].get("id"), Some(&text("http://example.org/ns/2#Person")));
    assert_eq!(
        tree.get("prefixmap"),
        Some(&map(vec![
            entry("ex", text("http://example.org/ns/2#")),
            entry("xsd", text("http://www.w3.org/2001/XMLSchema#")),
        ]))
    );
}

#[test]
fn parsed_schema_declares_its_prefixes_first() {
    let schema = parse(
        "PREFIX ex: <http://example.org/ns/2#>\nPREFIX xsd: <http://www.w3.org/2001/XMLSchema#>\nex:Person {\n  ex:name xsd:string ;\n  ex:age xsd:integer ? ;\n}\n",
    );
    let shapes = shapes_from_rudof_ast(&schema).unwrap();
    assert_eq!(shapes, vec![]);
    let linkml = build_linkml_doc(Some("1"), shapes.as_slice()).unwrap();
    assert_eq!(linkml, "id: '1'\nprefixes:\n  ex: http://example.org/\nclasses: {}\nslots: {}\n");
    assert_eq!(linkml_yaml_to_shex(linkml.as_str()).unwrap(), "");
}

#[test]
fn empty_schema_has_no_shapes() {
    let schema = parse("");
    assert_eq!(shapes_from_rudof_ast(&schema).unwrap(), vec![]);
}
