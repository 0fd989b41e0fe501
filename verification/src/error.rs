//! The error type of the crate.

use vstd::prelude::*;

verus! {

/// The error that the XML reader reports for a malformed document.
#[verifier::external_type_specification]
#[verifier::external_body]
pub struct ExXmlError(quick_xml::Error);

/// The error that the XML reader reports for a malformed attribute list.
#[verifier::external_type_specification]
#[verifier::external_body]
pub struct ExAttrError(quick_xml::events::attributes::AttrError);

/// The error that the XML reader reports for bytes that are not text.
#[verifier::external_type_specification]
#[verifier::external_body]
pub struct ExEncodingError(quick_xml::encoding::EncodingError);

/// Why a document could not be parsed. Every variant is fatal: no partial
/// result is returned with it.
#[derive(Debug)]
pub enum ConvertError {
    /// The document is not well-formed XML, or the value of an attribute
    /// holds a reference that cannot be resolved. `position` is the byte
    /// offset in the document up to which the reader had come when it
    /// failed; it is `None` for the value of an attribute.
    Xml { error: quick_xml::Error, position: Option<u64> },
    /// The attributes of a tag are malformed.
    Attribute(quick_xml::events::attributes::AttrError),
    /// A time code is not of a recognised form; the message holds the literal.
    InvalidTime(String),
    /// The parser lost the context that an event needs.
    Internal(String),
    /// The bytes of a name or of a text are not text in the encoding of the
    /// document.
    Encoding(quick_xml::encoding::EncodingError),
}

/// The message of the error for a time code that cannot be read.
pub open spec fn invalid_time_message(literal: Seq<char>) -> Seq<char> {
    "invalid time code '"@ + literal + "'"@
}

/// The error for a time code that cannot be read.
pub fn invalid_time(literal: &str) -> (e: ConvertError)
    ensures
        e matches ConvertError::InvalidTime(m) && m@ == invalid_time_message(literal@),
{
    let mut m = String::from_str("invalid time code '");
    m.append(literal);
    m.append("'");
    ConvertError::InvalidTime(m)
}

} // verus!
