//! What can go wrong while a source of data or an address is read.

use vstd::prelude::*;

verus! {

/// The error of `serde_json`, carried through unread.
#[verifier::external_type_specification]
#[verifier::external_body]
pub struct ExJsonError(serde_json::Error);

/// The error of `serde_yaml`, carried through unread.
#[verifier::external_type_specification]
#[verifier::external_body]
pub struct ExYamlError(serde_yaml::Error);

/// The error of `toml` on reading a document, carried through unread.
#[verifier::external_type_specification]
#[verifier::external_body]
pub struct ExTomlError(toml::de::Error);

/// Why a source of data or an address was not accepted.
#[derive(Debug)]
pub enum Failure {
    /// The source is no TOML document.
    TomlDeserialization(toml::de::Error),
    /// The source is no YAML document.
    Yaml(serde_yaml::Error),
    /// The source is no JSON document.
    Json(serde_json::Error),
    /// The text is no address.
    Url(url::ParseError),
}

} // verus!
