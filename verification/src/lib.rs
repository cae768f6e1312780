//! Shapes of graph data, read from a parsed shape-expression schema and written as a
//! class document, as a JSON Schema, and from a class document back as shape expressions.
//!
//! A parsed schema and every document is a [`GenericNode`]: a tree of mappings, sequences
//! and scalars. [`convert::shapes_from_rudof_ast`] finds the shapes in a schema,
//! [`convert::build_linkml_doc`] and [`convert::build_json_schema`] emit them, and
//! [`linkml_yaml_to_shex`] reads a class document back.

pub mod convert;
pub mod error;
pub mod extract;
pub mod json;
pub mod json_schema;
pub mod linkml;
pub mod linkml_to_shex;
pub mod mapping;
pub mod node;
pub mod shape;
pub mod text;
pub mod yaml;

pub use convert::{build_json_schema, build_linkml_doc, shapes_from_rudof_ast};
pub use error::ConvertError;
pub use linkml_to_shex::{linkml_to_shex, linkml_yaml_to_shex};
pub use node::{Entry, GenericNode, Number};
pub use shape::{PropertyInfo, ShapeInfo};
