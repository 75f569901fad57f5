//! The kinds of data source and of output, and what is made of their names
//! and contents before anything is read or written.

use crate::address::{parse_address, parsed_url};
use crate::errors::Failure;
use crate::text::{push_char, same};
use vstd::prelude::*;
use vstd::std_specs::iter::IteratorSpec;
use vstd::string::StringExecFns;

verus! {

/// The value of `serde_json`, carried through unread.
#[verifier::external_type_specification]
#[verifier::external_body]
pub struct ExJsonValue(serde_json::Value);

/// Whether `serde_json` reads `source` as a JSON document.
pub uninterp spec fn json_document(source: Seq<char>) -> bool;

/// Whether `serde_yaml` reads `source` as a YAML document.
pub uninterp spec fn yaml_document(source: Seq<char>) -> bool;

/// Whether `toml` reads `source` as a TOML document.
pub uninterp spec fn toml_document(source: Seq<char>) -> bool;

/// `serde_json::from_str` for a value of any shape: it succeeds on the
/// sources that are JSON documents, and on no others.
#[verifier::external_body]
fn json_from_str(source: &str) -> (r: Result<serde_json::Value, serde_json::Error>)
    ensures
        r is Ok <==> json_document(source@),
{
    serde_json::from_str(source)
}

/// `serde_yaml::from_str` for a value of any shape: it succeeds on the
/// sources that are YAML documents, and on no others.
#[verifier::external_body]
fn yaml_from_str(source: &str) -> (r: Result<serde_json::Value, serde_yaml::Error>)
    ensures
        r is Ok <==> yaml_document(source@),
{
    serde_yaml::from_str(source)
}

/// `toml::from_str` for a value of any shape: it succeeds on the sources
/// that are TOML documents, and on no others.
#[verifier::external_body]
fn toml_from_str(source: &str) -> (r: Result<serde_json::Value, toml::de::Error>)
    ensures
        r is Ok <==> toml_document(source@),
{
    toml::from_str(source)
}

/// The format of a source of data.
#[derive(Clone, Copy, Debug, PartialEq, Eq, Structural)]
pub enum SourceType {
    Yaml,
    Json,
    Toml,
}

/// What a source of data holds.
#[derive(Debug)]
pub struct SourceValue(pub serde_json::Value);

impl SourceType {
    /// The format that a file with the extension `extension` is in, if it is
    /// one that is known.
    pub open spec fn for_extension(extension: Seq<char>) -> Option<SourceType> {
        if extension == "json"@ {
            Some(SourceType::Json)
        } else if extension == "toml"@ {
            Some(SourceType::Toml)
        } else if extension == "yml"@ || extension == "yaml"@ {
            Some(SourceType::Yaml)
        } else {
            None
        }
    }

    /// Whether `source` is a document in this format.
    pub open spec fn reads(self, source: Seq<char>) -> bool {
        match self {
            SourceType::Json => json_document(source),
            SourceType::Yaml => yaml_document(source),
            SourceType::Toml => toml_document(source),
        }
    }

    /// The format that a file with the extension `extension` is in: `json`,
    /// `toml`, and `yml` or `yaml`.
    pub fn from_extension(extension: &str) -> (source_type: Option<SourceType>)
        ensures
            source_type == SourceType::for_extension(extension@),
    {
        if same(extension, "json") {
            Some(SourceType::Json)
        } else if same(extension, "toml") {
            Some(SourceType::Toml)
        } else if same(extension, "yml") || same(extension, "yaml") {
            Some(SourceType::Yaml)
        } else {
            None
        }
    }

    /// Reads `source` as a document in this format. It fails where the source
    /// is no such document, with the error of the format.
    pub fn to_value(&self, source: &str) -> (r: Result<SourceValue, Failure>)
        ensures
            r is Ok <==> self.reads(source@),
            r matches Err(failure) ==> match self {
                SourceType::Json => failure is Json,
                SourceType::Yaml => failure is Yaml,
                SourceType::Toml => failure is TomlDeserialization,
            },
    {
        match self {
            SourceType::Json => match json_from_str(source) {
                Ok(value) => Ok(SourceValue(value)),
                Err(error) => Err(Failure::Json(error)),
            },
            SourceType::Yaml => match yaml_from_str(source) {
                Ok(value) => Ok(SourceValue(value)),
                Err(error) => Err(Failure::Yaml(error)),
            },
            SourceType::Toml => match toml_from_str(source) {
                Ok(value) => Ok(SourceValue(value)),
                Err(error) => Err(Failure::TomlDeserialization(error)),
            },
        }
    }
}

/// The format of an output file.
#[derive(Clone, Copy, Debug, PartialEq, Eq, Structural)]
pub enum OutputType {
    Pdf,
    Html,
}

impl OutputType {
    /// The ending of the names of the files in this format.
    pub open spec fn ending(self) -> Seq<char> {
        match self {
            OutputType::Pdf => ".pdf"@,
            OutputType::Html => ".html"@,
        }
    }

    /// The name of the file in this format that is written for the base
    /// path `output_base_path`.
    pub fn file_name(&self, output_base_path: &str) -> (name: String)
        ensures
            name@ == output_base_path@ + self.ending(),
    {
        let name = String::from_str(output_base_path);
        match self {
            OutputType::Pdf => name.concat(".pdf"),
            OutputType::Html => name.concat(".html"),
        }
    }
}

/// What stands for a character in the address of a page: `%`, `&`, `#`, `"`
/// and `'` are written as `%` and their code in hexadecimal, every other
/// character is itself.
pub open spec fn escaped(c: char) -> Seq<char> {
    if c == '%' {
        seq!['%', '2', '5']
    } else if c == '&' {
        seq!['%', '2', '6']
    } else if c == '#' {
        seq!['%', '2', '3']
    } else if c == '"' {
        seq!['%', '2', '2']
    } else if c == '\'' {
        seq!['%', '2', '7']
    } else {
        seq![c]
    }
}

/// A text with each of its characters replaced by what stands for it in the
/// address of a page.
pub open spec fn escape(text: Seq<char>) -> Seq<char>
    decreases text.len(),
{
    if text.len() == 0 {
        seq![]
    } else {
        escaped(text[0]) + escape(text.skip(1))
    }
}

/// The address under which a browser shows the page `output` itself: a
/// `data:` address that holds the page.
pub open spec fn page_data(output: Seq<char>) -> Seq<char> {
    "data:text/html;charset=UTF-8,"@ + escape(output)
}

/// The `data:` address that holds the page `output`.
pub fn data_url(output: &str) -> (address: String)
    ensures
        address@ == page_data(output@),
{
    let mut address = String::from_str("data:text/html;charset=UTF-8,");
    let mut rest = output.chars();
    let ghost mut i: int = 0;
    proof {
        assert(output@.skip(0) =~= output@);
    }
    loop
        invariant
            0 <= i <= output@.len(),
            rest.remaining() == output@.skip(i),
            address@ + escape(output@.skip(i)) == page_data(output@),
        decreases output@.len() - i,
    {
        let ghost before = address@;
        match rest.next() {
            None => {
                proof {
                    assert(before + escape(output@.skip(i)) =~= before);
                }
                return address;
            },
            Some(c) => {
                if c == '%' {
                    push_char(&mut address, '%');
                    push_char(&mut address, '2');
                    push_char(&mut address, '5');
                } else if c == '&' {
                    push_char(&mut address, '%');
                    push_char(&mut address, '2');
                    push_char(&mut address, '6');
                } else if c == '#' {
                    push_char(&mut address, '%');
                    push_char(&mut address, '2');
                    push_char(&mut address, '3');
                } else if c == '"' {
                    push_char(&mut address, '%');
                    push_char(&mut address, '2');
                    push_char(&mut address, '2');
                } else if c == '\'' {
                    push_char(&mut address, '%');
                    push_char(&mut address, '2');
                    push_char(&mut address, '7');
                } else {
                    push_char(&mut address, c);
                }
                proof {
                    assert(output@.skip(i).skip(1) =~= output@.skip(i + 1));
                    assert(address@ =~= before + escaped(c));
                    assert(address@ + escape(output@.skip(i + 1)) =~= before + escape(
                        output@.skip(i),
                    ));
                    i = i + 1;
                }
            },
        }
    }
}

/// The address that a browser is sent to for printing the page `output`:
/// the `data:` address that holds the page, as `url` writes it. It fails
/// where `url` does not take that for an address.
pub fn page_url(output: &str) -> (r: Result<String, Failure>)
    ensures
        match parsed_url(page_data(output@)) {
            Some(address) => r matches Ok(url) && url@ == address,
            None => r matches Err(failure) && failure is Url,
        },
{
    let address = data_url(output);
    parse_address(address.as_str())
}

/// A file that holds a source of data.
#[derive(Debug)]
pub struct SourceFile {
    /// The path of the file
    pub path: String,
    /// The format that the file is in
    pub type_: SourceType,
}

/// What reads the path of a source file from a configuration.
#[derive(Clone, Copy, Debug)]
pub struct SourceFileVisitor;

impl SourceFileVisitor {
    /// What is expected of the path of a source file.
    pub fn expecting(&self) -> (message: &'static str)
        ensures
            message@ == "a valid path with one of the following extensions: json, toml, or yml/yaml"@,
    {
        "a valid path with one of the following extensions: json, toml, or yml/yaml"
    }

    /// The source file at the path `s`, whose extension is `extension`: there
    /// is one where the path has an extension and the extension is that of a
    /// format that is known.
    pub fn visit_str(self, s: &str, extension: Option<&str>) -> (r: Option<SourceFile>)
        ensures
            match extension {
                Some(extension) => match SourceType::for_extension(extension@) {
                    Some(source_type) => r matches Some(file) && file.path@ == s@ && file.type_
                        == source_type,
                    None => r is None,
                },
                None => r is None,
            },
    {
        match extension {
            Some(extension) => match SourceType::from_extension(extension) {
                Some(source_type) => Some(
                    SourceFile { path: String::from_str(s), type_: source_type },
                ),
                None => None,
            },
            None => None,
        }
    }
}

} // verus!
