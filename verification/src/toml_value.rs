//! TOML documents of the `toml` crate, as far as a lockfile is read.

use vstd::prelude::*;

verus! {

/// `toml::Value`, any TOML value.
#[verifier::external_type_specification]
#[verifier::external_body]
pub struct ExTomlValue(toml::Value);

/// `toml::de::Error`, why a text is no TOML document.
#[verifier::external_type_specification]
#[verifier::external_body]
pub struct ExTomlError(toml::de::Error);

/// The document that a text parses to, if it is TOML.
pub uninterp spec fn toml_parsed(text: Seq<char>) -> Option<toml::Value>;

/// The value under `key`, if `value` is a table that has the key.
pub uninterp spec fn toml_member(value: toml::Value, key: Seq<char>) -> Option<toml::Value>;

/// The elements of `value`, if it is an array.
pub uninterp spec fn toml_items(value: toml::Value) -> Option<Seq<toml::Value>>;

/// The characters of `value`, if it is a string.
pub uninterp spec fn toml_text(value: toml::Value) -> Option<Seq<char>>;

/// Whether `value` is a table.
pub uninterp spec fn toml_is_table(value: toml::Value) -> bool;

/// Calls `toml::from_str` for a `toml::Value`. Trusted: whether the text
/// parses, and to what, depends on the text alone; [`toml_parsed`] names
/// the outcome.
#[verifier::external_body]
pub(crate) fn parse_document(text: &str) -> (result: Result<toml::Value, toml::de::Error>)
    ensures
        match result {
            Ok(document) => toml_parsed(text@) == Some(document),
            Err(_) => toml_parsed(text@) is None,
        },
{
    toml::from_str(text)
}

/// Calls `toml::Value::get` with a string index. Trusted: it returns the
/// value under the key where `value` is a table that has it, and nothing
/// otherwise; [`toml_member`] names that value.
#[verifier::external_body]
pub(crate) fn member<'a>(value: &'a toml::Value, key: &str) -> (found: Option<&'a toml::Value>)
    ensures
        match found {
            Some(inner) => toml_member(*value, key@) == Some(*inner),
            None => toml_member(*value, key@) is None,
        },
{
    value.get(key)
}

/// Calls `toml::Value::as_array`. Trusted: it returns the elements where
/// `value` is an array, and nothing otherwise; [`toml_items`] names them.
#[verifier::external_body]
pub(crate) fn as_items<'a>(value: &'a toml::Value) -> (found: Option<&'a Vec<toml::Value>>)
    ensures
        match found {
            Some(items) => toml_items(*value) == Some(items@),
            None => toml_items(*value) is None,
        },
{
    value.as_array()
}

/// Calls `toml::Value::as_str`. Trusted: it returns the string where
/// `value` is one, and nothing otherwise; [`toml_text`] names it.
#[verifier::external_body]
pub(crate) fn as_text<'a>(value: &'a toml::Value) -> (found: Option<&'a str>)
    ensures
        match found {
            Some(text) => toml_text(*value) == Some(text@),
            None => toml_text(*value) is None,
        },
{
    value.as_str()
}

/// Calls `toml::Value::is_table`. Trusted: what it answers depends on the
/// value alone; [`toml_is_table`] names the answer.
#[verifier::external_body]
pub(crate) fn is_table(value: &toml::Value) -> (yes: bool)
    ensures
        yes == toml_is_table(*value),
{
    value.is_table()
}

/// Calls `to_string` on a `toml::de::Error`: the parser's own words.
/// Nothing is claimed of them.
#[verifier::external_body]
pub(crate) fn error_text(error: &toml::de::Error) -> (message: String) {
    error.to_string()
}

} // verus!
