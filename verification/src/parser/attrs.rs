//! Attribute values of a tag, and the ways in which reading one fails.

use crate::error::{invalid_time_message, ConvertError};
use crate::parser::state::{ParserModel, SpanRole};
use crate::timecode::{parse_ttml_time_to_ms, timecode_ms};
use crate::xml::{attr_value_as_string, attribute_lookup, find_attribute, unescaped_value, XmlTag};
use vstd::prelude::*;
use vstd::string::StringSliceAdditionalSpecFns;

verus! {

/// The ways in which handling an event fails.
pub enum Failure {
    /// The document is malformed, or a value in it cannot be decoded.
    Xml,
    /// The attribute list of a tag is malformed.
    Attribute,
    /// A time code cannot be read; holds the literal.
    InvalidTime(Seq<char>),
    /// The parser lost the context that the event needs.
    Internal,
}

/// The error is of the given kind.
pub open spec fn is_failure(e: ConvertError, f: Failure) -> bool {
    match f {
        Failure::Xml => e is Xml,
        Failure::Attribute => e is Attribute,
        Failure::InvalidTime(literal) => e matches ConvertError::InvalidTime(m) && m@
            == invalid_time_message(literal),
        Failure::Internal => e is Internal,
    }
}

/// A computed result agrees with the expected one: the same value by its
/// model, or an error of the expected kind.
pub open spec fn agrees<T: DeepView>(r: Result<T, ConvertError>, expected: Result<T::V, Failure>) -> bool {
    match expected {
        Ok(v) => r matches Ok(x) && x.deep_view() == v,
        Err(f) => r matches Err(e) && is_failure(e, f),
    }
}

/// A step on the parser state agrees with the expected one: it succeeds and
/// leaves the expected state, or fails with an error of the expected kind.
pub open spec fn step_agrees(r: Result<(), ConvertError>, after: ParserModel, expected: Result<ParserModel, Failure>) -> bool {
    match expected {
        Ok(m) => r is Ok && after == m,
        Err(f) => r matches Err(e) && is_failure(e, f),
    }
}

/// The bytes of an optional raw value.
pub open spec fn raw_view(raw: Option<Vec<u8>>) -> Option<Seq<u8>> {
    match raw {
        Some(v) => Some(v@),
        None => None,
    }
}

/// The raw value of an attribute of a tag.
pub open spec fn attr_raw(tag: XmlTag, key: Seq<char>) -> Result<Option<Seq<u8>>, Failure> {
    match attribute_lookup(tag.name@, tag.content@, key) {
        None => Err(Failure::Attribute),
        Some(found) => Ok(found),
    }
}

/// The text that a raw attribute value stands for.
pub open spec fn raw_text(raw: Seq<u8>) -> Result<Seq<char>, Failure> {
    match unescaped_value(raw) {
        None => Err(Failure::Xml),
        Some(s) => Ok(s),
    }
}

/// The text of an optional raw attribute value.
pub open spec fn optional_text(raw: Option<Seq<u8>>) -> Result<Option<Seq<char>>, Failure> {
    match raw {
        None => Ok(None),
        Some(bytes) => match raw_text(bytes) {
            Err(f) => Err(f),
            Ok(s) => Ok(Some(s)),
        },
    }
}

/// The text of an attribute of a tag.
pub open spec fn attr_text(tag: XmlTag, key: Seq<char>) -> Result<Option<Seq<char>>, Failure> {
    match attr_raw(tag, key) {
        Err(f) => Err(f),
        Ok(raw) => optional_text(raw),
    }
}

/// The time in milliseconds that an attribute of a tag gives.
pub open spec fn attr_time(tag: XmlTag, key: Seq<char>) -> Result<Option<u64>, Failure> {
    match attr_text(tag, key) {
        Err(f) => Err(f),
        Ok(None) => Ok(None),
        Ok(Some(s)) => match timecode_ms(s) {
            None => Err(Failure::InvalidTime(s)),
            Some(ms) => Ok(Some(ms)),
        },
    }
}

/// The role that the raw value of a role attribute names.
pub open spec fn role_of(raw: Option<Seq<u8>>) -> SpanRole {
    match raw {
        None => SpanRole::Generic,
        Some(v) => if v == "x-translation".spec_bytes() {
            SpanRole::Translation
        } else if v == "x-roman".spec_bytes() {
            SpanRole::Romanization
        } else if v == "x-bg".spec_bytes() {
            SpanRole::Background
        } else {
            SpanRole::Generic
        },
    }
}

/// Tells whether two byte strings are equal.
pub fn bytes_eq(a: &[u8], b: &[u8]) -> (r: bool)
    ensures
        r == (a@ == b@),
{
    if a.len() != b.len() {
        return false;
    }
    let mut i: usize = 0;
    while i < a.len()
        invariant
            i <= a.len() == b.len(),
            a@.subrange(0, i as int) == b@.subrange(0, i as int),
        decreases a.len() - i,
    {
        if a[i] != b[i] {
            return false;
        }
        assert(a@.subrange(0, i + 1) == a@.subrange(0, i as int).push(a@[i as int]));
        assert(b@.subrange(0, i + 1) == b@.subrange(0, i as int).push(b@[i as int]));
        i += 1;
    }
    assert(a@.subrange(0, a.len() as int) == a@);
    assert(b@.subrange(0, b.len() as int) == b@);
    true
}

/// Tells whether a raw value is the bytes of a string.
pub fn raw_is(raw: &Vec<u8>, s: &str) -> (r: bool)
    ensures
        r == (raw@ == s.spec_bytes()),
{
    bytes_eq(raw.as_slice(), s.as_bytes())
}

/// Looks an attribute up and returns its raw value.
pub fn get_raw(tag: &XmlTag, key: &str) -> (r: Result<Option<Vec<u8>>, ConvertError>)
    requires
        tag.well_formed(),
    ensures
        match attr_raw(*tag, key@) {
            Ok(v) => r matches Ok(x) && raw_view(x) == v,
            Err(f) => r matches Err(e) && is_failure(e, f),
        },
{
    match find_attribute(tag, key) {
        Ok(found) => Ok(found),
        Err(e) => Err(ConvertError::Attribute(e)),
    }
}

/// Decodes a raw attribute value.
pub fn text_of_raw(raw: &Vec<u8>) -> (r: Result<String, ConvertError>)
    ensures
        agrees(r, raw_text(raw@)),
{
    match attr_value_as_string(raw.as_slice()) {
        Ok(s) => Ok(s),
        Err(e) => Err(ConvertError::Xml { error: e, position: None }),
    }
}

/// Decodes an optional raw attribute value.
pub fn text_of_optional(raw: &Option<Vec<u8>>) -> (r: Result<Option<String>, ConvertError>)
    ensures
        agrees(r, optional_text(raw_view(*raw))),
{
    match raw {
        None => Ok(None),
        Some(bytes) => match text_of_raw(bytes) {
            Ok(s) => Ok(Some(s)),
            Err(e) => Err(e),
        },
    }
}

/// Looks an attribute up and returns its text.
pub fn get_text(tag: &XmlTag, key: &str) -> (r: Result<Option<String>, ConvertError>)
    requires
        tag.well_formed(),
    ensures
        agrees(r, attr_text(*tag, key@)),
{
    match get_raw(tag, key) {
        Err(e) => Err(e),
        Ok(raw) => text_of_optional(&raw),
    }
}

/// Looks an attribute up and reads it as a time code.
pub fn get_time(tag: &XmlTag, key: &str) -> (r: Result<Option<u64>, ConvertError>)
    requires
        tag.well_formed(),
    ensures
        agrees(r, attr_time(*tag, key@)),
{
    match get_text(tag, key) {
        Err(e) => Err(e),
        Ok(None) => Ok(None),
        Ok(Some(s)) => match parse_ttml_time_to_ms(s.as_str()) {
            Ok(ms) => Ok(Some(ms)),
            Err(e) => Err(e),
        },
    }
}

/// The role that the raw value of a role attribute names.
pub fn role_from_raw(raw: &Option<Vec<u8>>) -> (r: SpanRole)
    ensures
        r == role_of(raw_view(*raw)),
{
    match raw {
        None => SpanRole::Generic,
        Some(v) => {
            if raw_is(v, "x-translation") {
                SpanRole::Translation
            } else if raw_is(v, "x-roman") {
                SpanRole::Romanization
            } else if raw_is(v, "x-bg") {
                SpanRole::Background
            } else {
                SpanRole::Generic
            }
        },
    }
}

} // verus!
