//! What the library takes on trust from `serde_yml`: the YAML parser and the
//! accessors of a parsed document. Nothing here is proved; each contract
//! says that a call's result depends on its arguments alone, and gives that
//! result a name.

use vstd::prelude::*;

verus! {

/// A parsed YAML value. The library looks into one only through the
/// functions below.
#[verifier::external_type_specification]
#[verifier::external_body]
pub struct ExValue(serde_yml::Value);

/// A YAML mapping in the order of its document.
#[verifier::external_type_specification]
#[verifier::external_body]
pub struct ExMapping(serde_yml::Mapping);

/// Why a text is not a YAML document.
#[verifier::external_type_specification]
#[verifier::external_body]
pub struct ExError(serde_yml::Error);

/// The value that `serde_yml::from_str` reads from `content`; `None` where
/// it reports an error.
pub uninterp spec fn yaml_document(content: Seq<char>) -> Option<serde_yml::Value>;

/// What `serde_yml::Value::get` finds in `value` under the string `key`.
pub uninterp spec fn yaml_member(value: serde_yml::Value, key: Seq<char>) -> Option<
    serde_yml::Value,
>;

/// What `serde_yml::Value::as_mapping` makes of `value`.
pub uninterp spec fn yaml_mapping(value: serde_yml::Value) -> Option<serde_yml::Mapping>;

/// The key-value pairs that `serde_yml::Mapping::iter` walks through, in its
/// order.
pub uninterp spec fn yaml_entries(mapping: serde_yml::Mapping) -> Seq<
    (serde_yml::Value, serde_yml::Value),
>;

/// What `serde_yml::Value::as_str` makes of `value`.
pub uninterp spec fn yaml_text(value: serde_yml::Value) -> Option<Seq<char>>;

/// Calls `serde_yml::from_str` for a `Value`. Trusted: parsing the same text
/// gives the same value, or fails, every time.
#[verifier::external_body]
pub(crate) fn parse_document(content: &str) -> (parsed: Result<
    serde_yml::Value,
    serde_yml::Error,
>)
    ensures
        match parsed {
            Ok(document) => yaml_document(content@) == Some(document),
            Err(_) => yaml_document(content@) is None,
        },
{
    serde_yml::from_str::<serde_yml::Value>(content)
}

/// Calls `serde_yml::Value::get` with a string key. Trusted: the member that
/// is found depends on the value and the key alone.
#[verifier::external_body]
pub(crate) fn member<'a>(value: &'a serde_yml::Value, key: &str) -> (found: Option<
    &'a serde_yml::Value,
>)
    ensures
        match found {
            Some(inner) => yaml_member(*value, key@) == Some(*inner),
            None => yaml_member(*value, key@) is None,
        },
{
    value.get(key)
}

/// Calls `serde_yml::Value::as_mapping`. Trusted: the mapping that is handed
/// out depends on the value alone.
#[verifier::external_body]
pub(crate) fn as_mapping<'a>(value: &'a serde_yml::Value) -> (mapping: Option<
    &'a serde_yml::Mapping,
>)
    ensures
        match mapping {
            Some(inner) => yaml_mapping(*value) == Some(*inner),
            None => yaml_mapping(*value) is None,
        },
{
    value.as_mapping()
}

/// Calls `serde_yml::Mapping::iter` and collects what it yields. Trusted:
/// the pairs and their order depend on the mapping alone.
#[verifier::external_body]
pub(crate) fn entries<'a>(mapping: &'a serde_yml::Mapping) -> (pairs: Vec<
    (&'a serde_yml::Value, &'a serde_yml::Value),
>)
    ensures
        pairs@.len() == yaml_entries(*mapping).len(),
        forall|i: int|
            0 <= i < pairs@.len() ==> (*(#[trigger] pairs@[i]).0, *pairs@[i].1) == yaml_entries(
                *mapping,
            )[i],
{
    mapping.iter().collect()
}

/// Calls `serde_yml::Value::as_str`. Trusted: the text that is handed out
/// depends on the value alone.
#[verifier::external_body]
pub(crate) fn as_text<'a>(value: &'a serde_yml::Value) -> (text: Option<&'a str>)
    ensures
        match text {
            Some(inner) => yaml_text(*value) == Some(inner@),
            None => yaml_text(*value) is None,
        },
{
    value.as_str()
}

/// Formats a `serde_yml::Error` through its `Display`. Nothing is claimed of
/// the message.
#[verifier::external_body]
pub(crate) fn error_message(error: &serde_yml::Error) -> String {
    error.to_string()
}

} // verus!
