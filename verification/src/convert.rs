//! The conversions from a parsed schema to shapes and from shapes to documents.

use crate::error::ConvertError;
use crate::extract::{extract_shapes_from_ast, shapes_of};
use crate::json::{node_from_json, schema_to_json, schema_tree};
use crate::linkml::{linkml_document, linkml_tree};
use crate::shape::{shape_views, ShapeView};
use crate::text::option_view;
use crate::yaml::{node_to_yaml, yaml_text, yaml_to_string};
use vstd::prelude::*;

pub use crate::extract::{build_prop_from_tc, extract_props_from_shape, infer_range_from_tc};
pub use crate::json_schema::build_json_schema;
pub use crate::shape::{PropertyInfo, ShapeInfo};

verus! {

/// The shapes that a parsed schema declares: the schema is serialised into a tree, and
/// the tree is searched for shape declarations. Fails where the schema cannot be
/// serialised, and only there.
pub fn shapes_from_rudof_ast(schema: &shex_ast::Schema) -> (outcome: Result<
    Vec<ShapeInfo>,
    ConvertError,
>)
    ensures
        match schema_tree(*schema) {
            Some(tree) => outcome matches Ok(shapes) && shape_views(shapes@) == shapes_of(tree),
            None => outcome matches Err(ConvertError::SerializeAst(_)),
        },
{
    match schema_to_json(schema) {
        Ok(value) => {
            let tree = node_from_json(&value);
            Ok(extract_shapes_from_ast(&tree))
        },
        Err(error) => Err(ConvertError::SerializeAst(error)),
    }
}

/// The class document of a list of shapes, written as YAML. `input` is the identifier of
/// the document; without one it is `schema`. Fails where the document cannot be written,
/// and only there.
pub fn build_linkml_doc(input: Option<&str>, shapes: &[ShapeInfo]) -> (outcome: Result<
    String,
    ConvertError,
>)
    ensures
        match yaml_text(linkml_document(option_view(input), shape_views(shapes@))) {
            Some(text) => outcome matches Ok(written) && written@ == text,
            None => outcome matches Err(ConvertError::SerializeYaml(_)),
        },
{
    let document = linkml_tree(input, shapes);
    let value = node_to_yaml(&document);
    match yaml_to_string(&value) {
        Ok(written) => Ok(written),
        Err(error) => Err(ConvertError::SerializeYaml(error)),
    }
}

/// Writing the same shapes out twice gives the same text, or fails both times: what is
/// written depends on nothing but the identifier and the shapes.
pub proof fn lemma_linkml_emission_repeats(
    input: Option<Seq<char>>,
    shapes: Seq<ShapeView>,
    first: Option<Seq<char>>,
    second: Option<Seq<char>>,
)
    requires
        first == yaml_text(linkml_document(input, shapes)),
        second == yaml_text(linkml_document(input, shapes)),
    ensures
        first == second,
{
}

} // verus!
