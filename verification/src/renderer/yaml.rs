//! What the library takes on trust from the YAML parser.
//!
//! A sprite description is a YAML document. Parsing YAML is left to the
//! `yaml_rust` crate; nothing in this file is proved. Each function here
//! makes one call into that crate, and its contract gives the result of the
//! call a name, so that the code that builds on it can say exactly what it
//! returns in terms of what the parser returns. Which texts the parser is
//! handed at all is decided, and proved, where sprites are read.

use vstd::prelude::*;
use crate::renderer::types::object::parser_fault;

verus! {

/// A node of a parsed YAML document. Nothing is known of what is inside.
#[verifier::external_type_specification]
#[verifier::external_body]
pub struct ExYaml(yaml_rust::Yaml);

/// The error of the YAML scanner. Nothing is known of what is inside.
#[verifier::external_type_specification]
#[verifier::external_body]
pub struct ExScanError(yaml_rust::ScanError);

/// The documents that `yaml_rust::YamlLoader::load_from_str` finds in
/// `source`, or `None` where it returns an error.
pub uninterp spec fn yaml_documents(source: Seq<char>) -> Option<Seq<yaml_rust::Yaml>>;

/// The node that indexing `node` with the string `key` gives.
pub uninterp spec fn yaml_entry(node: yaml_rust::Yaml, key: Seq<char>) -> yaml_rust::Yaml;

/// The text that `yaml_rust::Yaml::as_str` finds in `node`, if any.
pub uninterp spec fn yaml_text(node: yaml_rust::Yaml) -> Option<Seq<char>>;

/// Calls `yaml_rust::YamlLoader::load_from_str`, which parses `source` into
/// its documents, or gives the error of the scanner.
///
/// The parser does not return for every text, so the contract leaves two
/// kinds of text out.
///
/// It calls itself once for each collection that lies in another, without
/// a limit of its own for block collections, so a text that is nested deep
/// enough runs it out of stack. Every collection that it opens takes a
/// character of its own from the text: `[` or `{` for a flow collection,
/// `-` for a block sequence, `?` or `:` for a mapping, where the scanner
/// takes `-` and `?` for such a mark only if a blank, a line break or the
/// end of the text follows. A text with at most `MAX_COLLECTION_MARKS`
/// such characters is therefore nested no deeper than that.
///
/// It also copies the node that an anchor names wherever an alias of it
/// stands, so anchors that hold aliases of one another grow without a
/// limit. An anchor starts with `&` and an alias with `*`, and an alias of
/// no anchor is an error, so a text that lacks one of the two characters
/// has nothing copied.
///
/// Of the texts that are left the contract claims only that the outcome is
/// a function of the text: it names the documents `yaml_documents(source@)`.
#[verifier::external_body]
pub(crate) fn load_documents(source: &str) -> (r: Result<Vec<yaml_rust::Yaml>, yaml_rust::ScanError>)
    requires
        parser_fault(source@) is None,
    ensures
        r matches Ok(docs) ==> yaml_documents(source@) == Some(docs@),
        r is Err ==> yaml_documents(source@) is None,
{
    yaml_rust::YamlLoader::load_from_str(source)
}

/// Indexes `node` with `key`, through the `Index<&str>` impl of
/// `yaml_rust::Yaml`. That impl looks `key` up if `node` is a hash, and
/// gives a `BadValue` node where there is no such entry or `node` is no
/// hash: it never panics.
///
/// The contract claims only that the outcome is a function of the node and
/// the key: it names it `yaml_entry(*node, key@)`.
#[verifier::external_body]
pub(crate) fn entry<'a>(node: &'a yaml_rust::Yaml, key: &str) -> (r: &'a yaml_rust::Yaml)
    ensures
        *r == yaml_entry(*node, key@),
{
    &node[key]
}

/// Calls `yaml_rust::Yaml::as_str`, which gives the text of a string node
/// and `None` for every other node.
///
/// The contract claims only that the outcome is a function of the node: it
/// names it `yaml_text(*node)`.
#[verifier::external_body]
pub(crate) fn text<'a>(node: &'a yaml_rust::Yaml) -> (r: Option<&'a str>)
    ensures
        r matches Some(s) ==> yaml_text(*node) == Some(s@),
        r is None ==> yaml_text(*node) is None,
{
    node.as_str()
}

} // verus!
