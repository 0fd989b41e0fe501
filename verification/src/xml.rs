//! The XML reader that the parser consumes, and the events it yields.
//!
//! Reading is done by `quick_xml`. An event is handed on as plain strings, so
//! that the parser's rules are functions of values that contracts can speak
//! of. What the reader answers for a document is not described here: it is
//! given a name, [`document_answers`], and the contracts of the parser are
//! stated over that name.

use crate::xml::XmlEvent::{Empty, End, Eof, GeneralRef, Other, Start, Text};
use quick_xml::encoding::EncodingError;
use quick_xml::events::attributes::{AttrError, Attribute};
use quick_xml::events::{BytesStart, Event};
use quick_xml::name::QName;
use quick_xml::reader::Reader;
use std::borrow::Cow;
use vstd::prelude::*;

verus! {

/// The streaming XML reader.
#[verifier::external_type_specification]
#[verifier::external_body]
#[verifier::reject_recursive_types(R)]
pub struct ExReader<R>(Reader<R>);

/// A start tag: its qualified name, and its whole content, which begins with
/// the name and goes on with the attributes as written in the document.
#[derive(Debug, Clone, PartialEq)]
pub struct XmlTag {
    pub name: String,
    pub content: String,
}

impl XmlTag {
    /// The content begins with the name.
    pub open spec fn well_formed(&self) -> bool {
        &&& self.name@.len() <= self.content@.len()
        &&& self.content@.subrange(0, self.name@.len() as int) == self.name@
    }
}

/// One event of the document, in document order.
#[derive(Debug, Clone, PartialEq)]
pub enum XmlEvent {
    /// A start tag. An empty element is reported as a start and an end.
    Start(XmlTag),
    /// An empty element, where the reader does not expand it.
    Empty(XmlTag),
    /// An end tag, with its qualified name.
    End(String),
    /// Character data between tags, as written.
    Text(String),
    /// A general entity reference `&name;`, with its name.
    GeneralRef(String),
    /// The end of the document.
    Eof,
    /// Anything else: comments, declarations, processing instructions.
    Other,
}

impl XmlEvent {
    /// The tags of the event are well-formed.
    pub open spec fn well_formed(&self) -> bool {
        match self {
            XmlEvent::Start(t) => t.well_formed(),
            XmlEvent::Empty(t) => t.well_formed(),
            _ => true,
        }
    }
}

/// What looking an attribute up in a tag gives: `None` where the attribute
/// list is malformed before the attribute is found, `Some(None)` where the
/// tag has no such attribute, else the raw bytes of the first value.
pub uninterp spec fn attribute_lookup(name: Seq<char>, content: Seq<char>, key: Seq<char>) -> Option<
    Option<Seq<u8>>,
>;

/// The text that a raw attribute value stands for once decoded and with its
/// entity references replaced, or `None` where it cannot be decoded or holds
/// a reference that cannot be resolved.
pub uninterp spec fn unescaped_value(raw: Seq<u8>) -> Option<Seq<char>>;

/// Why the reader has no event to give.
#[derive(Debug)]
pub enum ReadError {
    /// The document is not well-formed.
    Malformed(quick_xml::Error),
    /// The bytes of the event are not text in the encoding of the document.
    Encoding(EncodingError),
}

/// One answer of the reader to the request for the next event.
pub enum Answer {
    /// An event. `inner` is told only of a start tag: the text from the tag
    /// to the end tag that matches it, as written in the document, and the
    /// number of answers that this text takes the place of; `None` where
    /// that text cannot be read.
    Event { event: XmlEvent, inner: Option<(Seq<char>, nat)> },
    /// The document is not well-formed here.
    Malformed,
    /// The bytes of the event are not text.
    Undecodable,
}

/// The answers of a reader over a document with the given settings, one for
/// each request for the next event, up to the end of the document.
pub uninterp spec fn document_answers(content: Seq<char>, trim_text: bool, expand_empty_elements: bool) -> Seq<
    Answer,
>;

/// The answers that a reader has yet to give before the end of its document.
pub uninterp spec fn answers_left(reader: Reader<&[u8]>) -> Seq<Answer>;

/// What reading the text up to an end tag of the given name gives from where
/// the reader stands: the text, and the number of answers that it takes the
/// place of; `None` where the text cannot be read.
pub uninterp spec fn inner_text(reader: Reader<&[u8]>, end_name: Seq<char>) -> Option<(Seq<char>, nat)>;

/// The result of a request for the next event is what the answer says.
pub open spec fn gives(r: Result<XmlEvent, ReadError>, answer: Answer) -> bool {
    match answer {
        Answer::Event { event, .. } => r == Ok::<XmlEvent, ReadError>(event),
        Answer::Malformed => r matches Err(ReadError::Malformed(_)),
        Answer::Undecodable => r matches Err(ReadError::Encoding(_)),
    }
}

/// What an answer tells of the text inside the element that it opens.
pub open spec fn inner_of(answer: Answer) -> Option<(Seq<char>, nat)> {
    match answer {
        Answer::Event { inner, .. } => inner,
        _ => None,
    }
}

/// The name of the start tag that a request for the next event gave; empty
/// where it gave anything else.
pub open spec fn start_name(r: Result<XmlEvent, ReadError>) -> Seq<char> {
    match r {
        Ok(XmlEvent::Start(tag)) => tag.name@,
        _ => Seq::empty(),
    }
}

/// A request for the next event was answered. `left` are the answers that
/// the reader had left and `left_after` those that it has left now: the
/// result is the first of `left`, and the others are left; at the end of the
/// document the result is `Eof`, and nothing is left. After a start tag,
/// `inner`, the text that can now be read up to its end tag, is the one that
/// the answer tells of.
pub open spec fn answered(
    left: Seq<Answer>,
    r: Result<XmlEvent, ReadError>,
    left_after: Seq<Answer>,
    inner: Option<(Seq<char>, nat)>,
) -> bool {
    if left.len() == 0 {
        r == Ok::<XmlEvent, ReadError>(XmlEvent::Eof) && left_after.len() == 0
    } else {
        &&& gives(r, left[0])
        &&& left_after == left.drop_first()
        &&& r matches Ok(XmlEvent::Start(_)) ==> inner == inner_of(left[0])
    }
}

/// The text up to an end tag was read. `inner` is the text named for the
/// reader as it stood, `left` the answers that it had left and `left_after`
/// those that it has left now: the result is the text, and the answers that
/// the text takes the place of are no longer left; or the text cannot be
/// read, and the result is an error.
pub open spec fn text_read(
    inner: Option<(Seq<char>, nat)>,
    left: Seq<Answer>,
    r: Result<String, quick_xml::Error>,
    left_after: Seq<Answer>,
) -> bool {
    match inner {
        Some((text, span)) => {
            &&& r matches Ok(t) && t@ == text
            &&& span <= left.len()
            &&& left_after == left.skip(span as int)
        },
        None => r is Err,
    }
}

/// `Reader::from_str`, with the two settings of `Config` that the parser
/// depends on. The answers that the reader will give are those named for the
/// document and the settings.
#[verifier::external_body]
pub(crate) fn open_reader<'a>(content: &'a str, trim_text: bool, expand_empty_elements: bool) -> (r:
    Reader<&'a [u8]>)
    ensures
        answers_left(r) == document_answers(content@, trim_text, expand_empty_elements),
{
    let mut reader = Reader::from_str(content);
    reader.config_mut().trim_text(trim_text);
    reader.config_mut().expand_empty_elements = expand_empty_elements;
    reader
}

/// `Reader::read_event`, with the bytes of the event decoded by
/// `Decoder::decode` of the reader's decoder. The result is the first of the
/// answers that the reader had left, and the others are left; at the end of
/// the document the result is `Eof`, as often as it is asked for. After a
/// start tag, the text that can be read up to its end tag is the one that
/// the answer tells of. The content of a tag begins with its name, which
/// `BytesStart::name` takes from the front of it.
#[verifier::external_body]
pub(crate) fn next_answer(reader: &mut Reader<&[u8]>) -> (r: Result<XmlEvent, ReadError>)
    ensures
        answered(answers_left(*old(reader)), r, answers_left(*final(reader)), inner_text(*final(reader), start_name(r))),
        r matches Ok(e) ==> e.well_formed(),
{
    let d = reader.decoder();
    let text = |b: &[u8]| d.decode(b).map(Cow::into_owned).map_err(ReadError::Encoding);
    Ok(match reader.read_event().map_err(ReadError::Malformed)? {
        Event::Start(e) => Start(XmlTag { name: text(e.name().0)?, content: text(&e)? }),
        Event::Empty(e) => Empty(XmlTag { name: text(e.name().0)?, content: text(&e)? }),
        Event::End(e) => End(text(e.name().0)?),
        Event::Text(e) => Text(text(&e)?),
        Event::GeneralRef(e) => GeneralRef(text(&e)?),
        Event::Eof => Eof,
        _ => Other,
    })
}

/// `Reader::buffer_position`: the byte offset in the document just after the
/// last event. Nothing is claimed of the result.
#[verifier::external_body]
pub(crate) fn reader_position(reader: &Reader<&[u8]>) -> (r: u64) {
    reader.buffer_position()
}

/// `Reader::read_text`: the text, as written in the document, up to the end
/// tag of the given name that matches the start tag just read. The result
/// is named, not described; where the text is read, the answers that it
/// takes the place of are no longer left.
#[verifier::external_body]
pub(crate) fn read_inner_text(reader: &mut Reader<&[u8]>, end_name: &str) -> (r: Result<
    String,
    quick_xml::Error,
>)
    ensures
        text_read(inner_text(*old(reader), end_name@), answers_left(*old(reader)), r, answers_left(*final(reader))),
{
    reader.read_text(QName(end_name.as_bytes())).map(Cow::into_owned)
}

/// `BytesStart::try_get_attribute` on the tag: the raw value of the first
/// attribute with the given key. The result is named, not described.
#[verifier::external_body]
pub(crate) fn find_attribute(tag: &XmlTag, key: &str) -> (r: Result<Option<Vec<u8>>, AttrError>)
    requires
        tag.well_formed(),
    ensures
        match r {
            Ok(Some(v)) => attribute_lookup(tag.name@, tag.content@, key@) == Some(Some(v@)),
            Ok(None) => attribute_lookup(tag.name@, tag.content@, key@) == Some(None::<Seq<u8>>),
            Err(_) => attribute_lookup(tag.name@, tag.content@, key@) is None,
        },
{
    let start = BytesStart::from_content(tag.content.as_str(), tag.name.len());
    start.try_get_attribute(key).map(|found| found.map(|a| a.value.into_owned()))
}

/// `Attribute::unescape_value` on a raw attribute value: decodes it and
/// replaces entity references. The result is named, not described.
#[verifier::external_body]
pub(crate) fn attr_value_as_string(raw: &[u8]) -> (r: Result<String, quick_xml::Error>)
    ensures
        match r {
            Ok(s) => unescaped_value(raw@) == Some(s@),
            Err(_) => unescaped_value(raw@) is None,
        },
{
    let attribute = Attribute { key: QName(b""), value: Cow::Borrowed(raw) };
    attribute.unescape_value().map(Cow::into_owned)
}

} // verus!
