//! A YAML document as a tree of plain values, read with `serde_yaml`.
use vstd::prelude::*;

verus! {

/// One node of a YAML document. Numbers keep their decimal text; tagged
/// nodes (`!tag value`) are kept only as a marker.
#[derive(Debug)]
pub enum YamlValue {
    Null,
    Bool(bool),
    Number(String),
    String(String),
    Sequence(Vec<YamlValue>),
    Mapping(Vec<(YamlValue, YamlValue)>),
    Tagged,
}

#[verifier::external_type_specification]
#[verifier::external_body]
pub struct ExYamlDocumentValue(serde_yaml::Value);

/// What `serde_yaml::from_str::<serde_yaml::Value>` makes of a text: the
/// document tree, or the text of its error.
pub uninterp spec fn yaml_document(text: Seq<char>) -> Result<YamlValue, String>;

/// Parses `text` with `serde_yaml::from_str::<serde_yaml::Value>` and hands
/// back the tree node for node, or the error's message.
#[verifier::external_body]
pub fn parse_yaml_document(text: &str) -> (r: Result<YamlValue, String>)
    ensures
        r == yaml_document(text@),
{
    match serde_yaml::from_str::<serde_yaml::Value>(text) {
        Ok(value) => Ok(yaml_node(value)),
        Err(error) => Err(error.to_string()),
    }
}

/// Moves a `serde_yaml::Value` into a `YamlValue`, one node for one node;
/// a number becomes its `Display` text.
#[verifier::external_body]
fn yaml_node(value: serde_yaml::Value) -> YamlValue {
    match value {
        serde_yaml::Value::Null => YamlValue::Null,
        serde_yaml::Value::Bool(b) => YamlValue::Bool(b),
        serde_yaml::Value::Number(n) => YamlValue::Number(n.to_string()),
        serde_yaml::Value::String(s) => YamlValue::String(s),
        serde_yaml::Value::Sequence(items) => YamlValue::Sequence(items.into_iter().map(yaml_node).collect()),
        serde_yaml::Value::Mapping(m) => YamlValue::Mapping(m.into_iter().map(|(k, v)| (yaml_node(k), yaml_node(v))).collect()),
        serde_yaml::Value::Tagged(_) => YamlValue::Tagged,
    }
}

} // verus!
