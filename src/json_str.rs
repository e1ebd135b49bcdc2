//! A JSON document carried as the content of a single string, e.g. the object
//! `{"a":1}` as the string `"{\"a\":1}"`.
use vstd::prelude::*;
use crate::error::CodecError;

verus! {

#[verifier::external_type_specification]
#[verifier::external_body]
pub struct ExValue(serde_json::Value);

/// The compact text that serde_json writes for a document.
pub uninterp spec fn document_text_of(v: serde_json::Value) -> Seq<char>;

/// What serde_json's parser makes of a text: the document, or its message.
pub uninterp spec fn parsed_document(text: Seq<char>) -> Result<serde_json::Value, Seq<char>>;

/// Relies on the `Display` of serde_json::Value: the compact document text,
/// which depends on the value alone.
#[verifier::external_body]
fn document_text(value: &serde_json::Value) -> (r: String)
    ensures
        r@ == document_text_of(*value),
{
    value.to_string()
}

/// Relies on serde_json::from_str: the parsed document, or the parser's
/// message; either depends on the text alone.
#[verifier::external_body]
fn parse_document(text: &str) -> (r: Result<serde_json::Value, String>)
    ensures
        match r {
            Ok(v) => parsed_document(text@) == Ok::<serde_json::Value, Seq<char>>(v),
            Err(m) => parsed_document(text@) == Err::<serde_json::Value, Seq<char>>(m@),
        },
{
    match serde_json::from_str::<serde_json::Value>(text) {
        Ok(v) => Ok(v),
        Err(e) => Err(e.to_string()),
    }
}

/// The document text of `value`, to be carried as a string.
pub fn serialize(value: &serde_json::Value) -> (r: String)
    ensures
        r@ == document_text_of(*value),
{
    document_text(value)
}

/// What decoding gives for the parser's outcome: the document, or
/// `EmbeddedParseError` with the parser's message.
pub fn from_parse_outcome(outcome: Result<serde_json::Value, String>) -> (r: Result<
    serde_json::Value,
    CodecError,
>)
    ensures
        match outcome {
            Ok(v) => r == Ok::<serde_json::Value, CodecError>(v),
            Err(m) => r == Err::<serde_json::Value, CodecError>(CodecError::EmbeddedParseError(m)),
        },
{
    match outcome {
        Ok(v) => Ok(v),
        Err(m) => Err(CodecError::EmbeddedParseError(m)),
    }
}

/// Parses the content of a string as a document; text that does not parse
/// gives `EmbeddedParseError` with the parser's message.
pub fn deserialize(token: &str) -> (r: Result<serde_json::Value, CodecError>)
    ensures
        match parsed_document(token@) {
            Ok(v) => r == Ok::<serde_json::Value, CodecError>(v),
            Err(m) => r is Err && r->Err_0 is EmbeddedParseError && r->Err_0->EmbeddedParseError_0@
                == m,
        },
{
    from_parse_outcome(parse_document(token))
}

} // verus!
