//! The errors of the conversions.

use vstd::prelude::*;

verus! {

/// Why a conversion failed.
#[derive(Debug)]
pub enum ConvertError {
    /// The schema could not be serialised into a tree.
    SerializeAst(serde_json::Error),
    /// The document could not be written as YAML.
    SerializeYaml(serde_yaml::Error),
    /// The text is not YAML.
    ParseYaml(serde_yaml::Error),
    /// The document has no `classes` mapping.
    MissingClasses,
}

/// What was being done when a conversion failed.
pub open spec fn context_of(error: ConvertError) -> Seq<char> {
    match error {
        ConvertError::SerializeAst(_) => "serialize AST"@,
        ConvertError::SerializeYaml(_) => "serialize LinkML YAML"@,
        ConvertError::ParseYaml(_) => "parsing linkml yaml"@,
        ConvertError::MissingClasses => "LinkML YAML missing `classes` mapping"@,
    }
}

impl ConvertError {
    /// What was being done when the conversion failed, in words.
    pub fn context(&self) -> (words: &'static str)
        ensures
            words@ == context_of(*self),
    {
        match self {
            ConvertError::SerializeAst(_) => "serialize AST",
            ConvertError::SerializeYaml(_) => "serialize LinkML YAML",
            ConvertError::ParseYaml(_) => "parsing linkml yaml",
            ConvertError::MissingClasses => "LinkML YAML missing `classes` mapping",
        }
    }
}

} // verus!
