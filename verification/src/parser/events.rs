//! One step of the parser: from a state and an event to the next state.

use crate::error::ConvertError;
use crate::parser::attrs::{agrees, attr_raw, attr_text, attr_time, get_raw, get_text, get_time, optional_text, raw_is, raw_view, step_agrees, text_of_optional, Failure};
use crate::parser::body::{
    add_text, or_else, or_zero, process_span_end, process_span_start, process_text_event, span_end, span_start,
    text_event, warn, with_paragraph, with_warning,
};
use crate::parser::finalize::{attach_keyed_translation, attach_translation, finalize_p_element, finalize_paragraph};
use crate::parser::metadata::{
    asking_nothing, asking_step_agrees, decode_entity, entity_char, handle_metadata_empty_event,
    handle_metadata_end_event, handle_metadata_reference, handle_metadata_start_event,
    handle_metadata_text_event, metadata_empty, metadata_end, metadata_reference, metadata_start, metadata_text,
    with_raw_metadata,
};
use crate::parser::state::{
    BodyModel, CurrentPElementData, LastSyllableInfo, ParagraphModel, ParserModel, TtmlParserState,
};
use crate::parser::support::{
    concat3, local_name, get_local_name_str, push_metadata, push_span_text, span_text,
};
use crate::text::str_eq;
use crate::xml::{XmlEvent, XmlTag};
use vstd::prelude::*;
use vstd::string::StringSliceAdditionalSpecFns;

verus! {

/// The elements of the document structure, by local name.
#[derive(Debug, Clone, Copy, PartialEq, Eq, Structural)]
pub enum BodyTag {
    Tt,
    Metadata,
    Body,
    Div,
    P,
    Span,
    Br,
    Other,
}

/// The element that a qualified name stands for.
pub open spec fn body_tag(name: Seq<char>) -> BodyTag {
    let local = local_name(name);
    if local == "tt"@ {
        BodyTag::Tt
    } else if local == "metadata"@ {
        BodyTag::Metadata
    } else if local == "body"@ {
        BodyTag::Body
    } else if local == "div"@ {
        BodyTag::Div
    } else if local == "p"@ {
        BodyTag::P
    } else if local == "span"@ {
        BodyTag::Span
    } else if local == "br"@ {
        BodyTag::Br
    } else {
        BodyTag::Other
    }
}

/// Tells which element a qualified name stands for.
pub fn classify_body_tag(name: &str) -> (r: BodyTag)
    ensures
        r == body_tag(name@),
{
    let local = get_local_name_str(name);
    if str_eq(local.as_str(), "tt") {
        BodyTag::Tt
    } else if str_eq(local.as_str(), "metadata") {
        BodyTag::Metadata
    } else if str_eq(local.as_str(), "body") {
        BodyTag::Body
    } else if str_eq(local.as_str(), "div") {
        BodyTag::Div
    } else if str_eq(local.as_str(), "p") {
        BodyTag::P
    } else if str_eq(local.as_str(), "span") {
        BodyTag::Span
    } else if str_eq(local.as_str(), "br") {
        BodyTag::Br
    } else {
        BodyTag::Other
    }
}

/// The warning for an entity that is not predefined, inside a paragraph.
pub open spec fn entity_warning(name: Seq<char>) -> Seq<char> {
    "unknown XML entity '&"@ + name + ";' is ignored"@
}

/// The warning for a line break inside a paragraph.
pub open spec fn line_break_warning(start: u64, end: u64) -> Seq<char> {
    "a <br/> in the paragraph ("@ + span_text(start, end) + ") is ignored"@
}

/// The warning for a document that is taken as line-timed for want of any
/// sign of word timing.
pub open spec fn fallback_warning() -> Seq<char> {
    "no timed <span> and no itunes:timing=\"line\": the document is read as line-timed"@
}

/// The state with text added where character data of a paragraph goes: to
/// the innermost open span, or to the line where no span is open.
pub open spec fn with_text(m: ParserModel, text: Seq<char>) -> ParserModel {
    if m.body.span_stack.len() > 0 {
        ParserModel { text_buffer: m.text_buffer + text, ..m }
    } else {
        match m.body.paragraph {
            Some(p) => with_paragraph(m, Some(ParagraphModel { line_text: p.line_text + text, ..p })),
            None => m,
        }
    }
}

/// What an entity reference inside a paragraph does: a predefined entity
/// adds its character to the text, any other is dropped with a warning.
pub open spec fn paragraph_reference(m: ParserModel, name: Seq<char>) -> ParserModel {
    match entity_char(name) {
        Some(c) => if m.body.paragraph is Some {
            with_text(m, seq![c])
        } else {
            m
        },
        None => with_warning(m, entity_warning(name)),
    }
}

/// Handles an entity reference inside a paragraph.
pub fn handle_paragraph_reference(name: &str, state: &mut TtmlParserState)
    ensures
        final(state).deep_view() == paragraph_reference(old(state).deep_view(), name@),
{
    match decode_entity(name) {
        Some(c) => {
            if state.body_state.current_p_element_data.is_some() {
                let mut one = String::new();
                one.push(c);
                assert(one@ =~= seq![c]);
                add_text(state, one.as_str());
            }
        },
        None => {
            warn(state, concat3("unknown XML entity '&", name, ";' is ignored"));
        },
    }
}

/// What a line break inside a paragraph does: a warning that names the
/// paragraph by its times.
pub open spec fn line_break(m: ParserModel) -> ParserModel {
    match m.body.paragraph {
        Some(p) => with_warning(m, line_break_warning(p.start_ms, p.end_ms)),
        None => with_warning(m, line_break_warning(0, 0)),
    }
}

/// Handles a line break inside a paragraph.
pub fn handle_line_break(state: &mut TtmlParserState)
    ensures
        final(state).deep_view() == line_break(old(state).deep_view()),
{
    let (start_ms, end_ms): (u64, u64) = match &state.body_state.current_p_element_data {
        Some(p) => (p.start_ms, p.end_ms),
        None => (0, 0),
    };
    let mut message = String::from_str("a <br/> in the paragraph (");
    push_span_text(&mut message, start_ms, end_ms);
    message.append(") is ignored");
    warn(state, message);
}

/// The state outside any paragraph: no paragraph is open, no span is open.
pub open spec fn outside_paragraph(m: ParserModel) -> ParserModel {
    ParserModel {
        body: BodyModel {
            in_p: false,
            paragraph: None,
            span_stack: Seq::empty(),
            last_syllable_info: LastSyllableInfo::NoSyllable,
            ..m.body
        },
        ..m
    }
}

/// What the end of a paragraph does: the paragraph takes the translation
/// that the metadata holds for its key, and is finished.
pub open spec fn paragraph_end(m: ParserModel) -> ParserModel {
    match m.body.paragraph {
        Some(p) => finalize_paragraph(
            outside_paragraph(m),
            attach_keyed_translation(p, m.metadata.translation_map),
        ),
        None => outside_paragraph(m),
    }
}

/// Handles the end of a paragraph.
pub fn handle_paragraph_end(state: &mut TtmlParserState)
    ensures
        final(state).deep_view() == paragraph_end(old(state).deep_view()),
{
    let taken = state.body_state.current_p_element_data.take();
    state.body_state.in_p = false;
    state.body_state.span_stack = Vec::new();
    state.body_state.last_syllable_info = LastSyllableInfo::NoSyllable;
    assert(state.body_state.span_stack.deep_view() =~= Seq::empty());
    match taken {
        Some(mut p_data) => {
            attach_translation(&mut p_data, &state.metadata_state.translation_map);
            finalize_p_element(p_data, state);
        },
        None => {},
    }
}

/// What an event does while a paragraph is open.
pub open spec fn p_event(m: ParserModel, event: XmlEvent) -> Result<ParserModel, Failure> {
    match event {
        XmlEvent::Start(tag) => if body_tag(tag.name@) == BodyTag::Span {
            span_start(m, tag)
        } else {
            Ok(m)
        },
        XmlEvent::Text(text) => Ok(text_event(m, text@)),
        XmlEvent::GeneralRef(name) => Ok(paragraph_reference(m, name@)),
        XmlEvent::End(name) => match body_tag(name@) {
            BodyTag::Br => Ok(line_break(m)),
            BodyTag::P => Ok(paragraph_end(m)),
            BodyTag::Span => span_end(m),
            _ => Ok(m),
        },
        _ => Ok(m),
    }
}

/// Handles an event while a paragraph is open.
pub fn handle_p_event(event: &XmlEvent, state: &mut TtmlParserState) -> (r: Result<(), ConvertError>)
    requires
        event.well_formed(),
    ensures
        step_agrees(r, final(state).deep_view(), p_event(old(state).deep_view(), *event)),
{
    match event {
        XmlEvent::Start(tag) => {
            if classify_body_tag(tag.name.as_str()) == BodyTag::Span {
                process_span_start(tag, state)
            } else {
                Ok(())
            }
        },
        XmlEvent::Text(text) => {
            process_text_event(text.as_str(), state);
            Ok(())
        },
        XmlEvent::GeneralRef(name) => {
            handle_paragraph_reference(name.as_str(), state);
            Ok(())
        },
        XmlEvent::End(name) => match classify_body_tag(name.as_str()) {
            BodyTag::Br => {
                handle_line_break(state);
                Ok(())
            },
            BodyTag::P => {
                handle_paragraph_end(state);
                Ok(())
            },
            BodyTag::Span => process_span_end(state),
            _ => Ok(()),
        },
        _ => Ok(()),
    }
}

/// The timing mode that the root element settles: `itunes:timing="line"`
/// makes the document line-timed; else a document that holds a timed span
/// is word-timed; else the document is line-timed too, with a warning.
pub open spec fn settle_timing(m: ParserModel, timing: Option<Seq<u8>>, has_timed_span_tags: bool) -> ParserModel {
    if timing == Some("line".spec_bytes()) {
        ParserModel { is_line_timing_mode: true, ..m }
    } else if has_timed_span_tags {
        m
    } else {
        with_warning(ParserModel { is_line_timing_mode: true, detected_line_mode: true, ..m }, fallback_warning())
    }
}

/// The state with the language of the root element: a language that is not
/// empty is recorded under `xml:lang_root`, and is the main language where
/// the caller gave none.
pub open spec fn with_root_lang(m: ParserModel, lang: Option<Seq<char>>) -> ParserModel {
    match lang {
        Some(l) => if l.len() > 0 {
            let recorded = with_raw_metadata(m, "xml:lang_root"@, l);
            ParserModel { default_main_lang: or_else(m.default_main_lang, Some(l)), ..recorded }
        } else {
            m
        },
        None => m,
    }
}

/// What the root element does.
pub open spec fn tt_start(m: ParserModel, tag: XmlTag, has_timed_span_tags: bool) -> Result<ParserModel, Failure> {
    match attr_raw(tag, "itunes:timing"@) {
        Err(f) => Err(f),
        Ok(timing) => match attr_text(tag, "xml:lang"@) {
            Err(f) => Err(f),
            Ok(lang) => Ok(with_root_lang(settle_timing(m, timing, has_timed_span_tags), lang)),
        },
    }
}

/// Settles the timing mode.
pub fn apply_timing(state: &mut TtmlParserState, timing: &Option<Vec<u8>>, has_timed_span_tags: bool)
    ensures
        final(state).deep_view() == settle_timing(old(state).deep_view(), raw_view(*timing), has_timed_span_tags),
{
    let line_timed = match timing {
        Some(raw) => raw_is(raw, "line"),
        None => false,
    };
    if line_timed {
        state.is_line_timing_mode = true;
    } else if !has_timed_span_tags {
        state.is_line_timing_mode = true;
        state.detected_line_mode = true;
        warn(state, String::from_str("no timed <span> and no itunes:timing=\"line\": the document is read as line-timed"));
    }
}

/// Records the language of the root element.
pub fn apply_root_lang(state: &mut TtmlParserState, lang: Option<String>)
    ensures
        final(state).deep_view() == with_root_lang(old(state).deep_view(), lang.deep_view()),
{
    match lang {
        Some(l) => {
            if !l.as_str().is_empty() {
                push_metadata(&mut state.raw_metadata, String::from_str("xml:lang_root"), l.clone());
                if state.default_main_lang.is_none() {
                    state.default_main_lang = Some(l);
                }
            }
        },
        None => {},
    }
}

/// Handles the root element.
pub fn process_tt_start(tag: &XmlTag, state: &mut TtmlParserState, has_timed_span_tags: bool) -> (r: Result<
    (),
    ConvertError,
>)
    requires
        tag.well_formed(),
    ensures
        step_agrees(r, final(state).deep_view(), tt_start(old(state).deep_view(), *tag, has_timed_span_tags)),
{
    let timing = get_raw(tag, "itunes:timing")?;
    apply_timing(state, &timing, has_timed_span_tags);
    let lang = get_text(tag, "xml:lang")?;
    apply_root_lang(state, lang);
    Ok(())
}

/// The paragraph that a `p` start tag opens: times from `begin` and `end`
/// (zero where absent), agent from `ttm:agent` or `agent`, song part from
/// `itunes:song-part` or else from the enclosing `div`, key from
/// `itunes:key`. The attributes are read in this order, and the first
/// failure is the result.
pub open spec fn paragraph_of_tag(tag: XmlTag, div_song_part: Option<Seq<char>>) -> Result<ParagraphModel, Failure> {
    match attr_time(tag, "begin"@) {
        Err(f) => Err(f),
        Ok(begin) => match attr_time(tag, "end"@) {
            Err(f) => Err(f),
            Ok(end) => match attr_raw(tag, "ttm:agent"@) {
                Err(f) => Err(f),
                Ok(agent_raw) => match attr_raw(tag, "agent"@) {
                    Err(f) => Err(f),
                    Ok(alias_raw) => match optional_text(or_else(agent_raw, alias_raw)) {
                        Err(f) => Err(f),
                        Ok(agent) => match attr_text(tag, "itunes:song-part"@) {
                            Err(f) => Err(f),
                            Ok(song_part) => match attr_text(tag, "itunes:key"@) {
                                Err(f) => Err(f),
                                Ok(key) => Ok(
                                    ParagraphModel {
                                        start_ms: or_zero(begin),
                                        end_ms: or_zero(end),
                                        agent: agent,
                                        song_part: or_else(song_part, div_song_part),
                                        itunes_key: key,
                                        line_text: Seq::empty(),
                                        syllables: Seq::empty(),
                                        translations: Seq::empty(),
                                        romanizations: Seq::empty(),
                                        background: None,
                                    },
                                ),
                            },
                        },
                    },
                },
            },
        },
    }
}

/// Reads the attributes of a paragraph.
pub fn read_paragraph(tag: &XmlTag, div_song_part: &Option<String>) -> (r: Result<CurrentPElementData, ConvertError>)
    requires
        tag.well_formed(),
    ensures
        agrees(r, paragraph_of_tag(*tag, div_song_part.deep_view())),
{
    let begin = get_time(tag, "begin")?;
    let end = get_time(tag, "end")?;
    let agent_raw = get_raw(tag, "ttm:agent")?;
    let alias_raw = get_raw(tag, "agent")?;
    let chosen = if agent_raw.is_some() { agent_raw } else { alias_raw };
    let agent = text_of_optional(&chosen)?;
    let own_song_part = get_text(tag, "itunes:song-part")?;
    let itunes_key = get_text(tag, "itunes:key")?;
    let song_part = if own_song_part.is_some() { own_song_part } else { div_song_part.clone() };
    let p = CurrentPElementData {
        start_ms: match begin {
            Some(v) => v,
            None => 0,
        },
        end_ms: match end {
            Some(v) => v,
            None => 0,
        },
        agent,
        song_part,
        itunes_key,
        line_text_accumulator: String::new(),
        syllables_accumulator: Vec::new(),
        translations_accumulator: Vec::new(),
        romanizations_accumulator: Vec::new(),
        background_section_accumulator: None,
    };
    assert(p.syllables_accumulator.deep_view() =~= Seq::empty());
    assert(p.translations_accumulator.deep_view() =~= Seq::empty());
    assert(p.romanizations_accumulator.deep_view() =~= Seq::empty());
    Ok(p)
}

/// What the start of a paragraph does.
pub open spec fn paragraph_start(m: ParserModel, tag: XmlTag) -> Result<ParserModel, Failure> {
    match paragraph_of_tag(tag, m.body.current_div_song_part) {
        Err(f) => Err(f),
        Ok(p) => Ok(
            ParserModel {
                text_buffer: Seq::empty(),
                body: BodyModel {
                    in_p: true,
                    paragraph: Some(p),
                    span_stack: Seq::empty(),
                    ..m.body
                },
                ..m
            },
        ),
    }
}

/// Handles the start of a paragraph.
pub fn open_paragraph(tag: &XmlTag, state: &mut TtmlParserState) -> (r: Result<(), ConvertError>)
    requires
        tag.well_formed(),
    ensures
        step_agrees(r, final(state).deep_view(), paragraph_start(old(state).deep_view(), *tag)),
{
    state.body_state.in_p = true;
    let p = read_paragraph(tag, &state.body_state.current_div_song_part)?;
    state.body_state.current_p_element_data = Some(p);
    state.text_buffer = String::new();
    state.body_state.span_stack = Vec::new();
    assert(state.body_state.span_stack.deep_view() =~= Seq::empty());
    Ok(())
}

/// What the start of a `div` does: its song part holds for the paragraphs
/// inside it.
pub open spec fn div_start(m: ParserModel, tag: XmlTag) -> Result<ParserModel, Failure> {
    match attr_text(tag, "itunes:song-part"@) {
        Err(f) => Err(f),
        Ok(song_part) => Ok(
            ParserModel { body: BodyModel { in_div: true, current_div_song_part: song_part, ..m.body }, ..m },
        ),
    }
}

/// Handles the start of a `div`.
pub fn open_div(tag: &XmlTag, state: &mut TtmlParserState) -> (r: Result<(), ConvertError>)
    requires
        tag.well_formed(),
    ensures
        step_agrees(r, final(state).deep_view(), div_start(old(state).deep_view(), *tag)),
{
    state.body_state.in_div = true;
    state.body_state.current_div_song_part = get_text(tag, "itunes:song-part")?;
    Ok(())
}

/// What a start tag does outside the metadata and outside any paragraph.
pub open spec fn global_start(m: ParserModel, tag: XmlTag, has_timed_span_tags: bool) -> Result<ParserModel, Failure> {
    match body_tag(tag.name@) {
        BodyTag::Tt => tt_start(m, tag, has_timed_span_tags),
        BodyTag::Metadata => Ok(ParserModel { in_metadata_section: true, ..m }),
        BodyTag::Body => Ok(ParserModel { body: BodyModel { in_body: true, ..m.body }, ..m }),
        BodyTag::Div => if m.body.in_body {
            div_start(m, tag)
        } else {
            Ok(m)
        },
        BodyTag::P => if m.body.in_body {
            paragraph_start(m, tag)
        } else {
            Ok(m)
        },
        _ => Ok(m),
    }
}

/// What an end tag does outside the metadata and outside any paragraph.
pub open spec fn global_end(m: ParserModel, name: Seq<char>) -> ParserModel {
    match body_tag(name) {
        BodyTag::Div => if m.body.in_div {
            ParserModel { body: BodyModel { in_div: false, current_div_song_part: None, ..m.body }, ..m }
        } else {
            m
        },
        BodyTag::Metadata => ParserModel { in_metadata_section: false, ..m },
        _ => m,
    }
}

/// What an event does outside the metadata and outside any paragraph.
pub open spec fn global_event(m: ParserModel, event: XmlEvent, has_timed_span_tags: bool) -> Result<ParserModel, Failure> {
    match event {
        XmlEvent::Start(tag) => global_start(m, tag, has_timed_span_tags),
        XmlEvent::End(name) => Ok(global_end(m, name@)),
        _ => Ok(m),
    }
}

/// Handles an end tag outside the metadata and outside any paragraph.
pub fn handle_global_end(name: &str, state: &mut TtmlParserState)
    ensures
        final(state).deep_view() == global_end(old(state).deep_view(), name@),
{
    match classify_body_tag(name) {
        BodyTag::Div => {
            if state.body_state.in_div {
                state.body_state.in_div = false;
                state.body_state.current_div_song_part = None;
            }
        },
        BodyTag::Metadata => {
            state.in_metadata_section = false;
        },
        _ => {},
    }
}

/// Handles an event outside the metadata and outside any paragraph.
pub fn handle_global_event(event: &XmlEvent, state: &mut TtmlParserState, has_timed_span_tags: bool) -> (r: Result<
    (),
    ConvertError,
>)
    requires
        event.well_formed(),
    ensures
        step_agrees(
            r,
            final(state).deep_view(),
            global_event(old(state).deep_view(), *event, has_timed_span_tags),
        ),
{
    match event {
        XmlEvent::Start(tag) => match classify_body_tag(tag.name.as_str()) {
            BodyTag::Tt => process_tt_start(tag, state, has_timed_span_tags),
            BodyTag::Metadata => {
                state.in_metadata_section = true;
                Ok(())
            },
            BodyTag::Body => {
                state.body_state.in_body = true;
                Ok(())
            },
            BodyTag::Div => {
                if state.body_state.in_body {
                    open_div(tag, state)
                } else {
                    Ok(())
                }
            },
            BodyTag::P => {
                if state.body_state.in_body {
                    open_paragraph(tag, state)
                } else {
                    Ok(())
                }
            },
            _ => Ok(()),
        },
        XmlEvent::End(name) => {
            handle_global_end(name.as_str(), state);
            Ok(())
        },
        _ => Ok(()),
    }
}

/// What an event does inside the metadata. The second part of the result is
/// the key of a keyed translation whose text is to be read next.
pub open spec fn metadata_event(m: ParserModel, event: XmlEvent) -> Result<(ParserModel, Option<Seq<char>>), Failure> {
    match event {
        XmlEvent::Start(tag) => metadata_start(m, tag),
        XmlEvent::Empty(tag) => asking_nothing(metadata_empty(m, tag)),
        XmlEvent::Text(text) => Ok((metadata_text(m, text@), None)),
        XmlEvent::GeneralRef(name) => Ok((metadata_reference(m, name@), None)),
        XmlEvent::End(name) => if body_tag(name@) == BodyTag::Metadata {
            Ok((ParserModel { in_metadata_section: false, ..m }, None))
        } else {
            Ok((metadata_end(m, name@), None))
        },
        _ => Ok((m, None)),
    }
}

/// Handles an event inside the metadata.
pub fn handle_metadata_event(event: &XmlEvent, state: &mut TtmlParserState) -> (r: Result<
    Option<String>,
    ConvertError,
>)
    requires
        event.well_formed(),
    ensures
        asking_step_agrees(r, final(state).deep_view(), metadata_event(old(state).deep_view(), *event)),
{
    match event {
        XmlEvent::Start(tag) => handle_metadata_start_event(tag, state),
        XmlEvent::Empty(tag) => {
            handle_metadata_empty_event(tag, state)?;
            Ok(None)
        },
        XmlEvent::Text(text) => {
            handle_metadata_text_event(text.as_str(), state);
            Ok(None)
        },
        XmlEvent::GeneralRef(name) => {
            handle_metadata_reference(name.as_str(), state);
            Ok(None)
        },
        XmlEvent::End(name) => {
            if classify_body_tag(name.as_str()) == BodyTag::Metadata {
                state.in_metadata_section = false;
            } else {
                handle_metadata_end_event(name.as_str(), state);
            }
            Ok(None)
        },
        _ => Ok(None),
    }
}

/// What one event does to the state of the parser.
///
/// An open paragraph takes the event; else the metadata does, if the parser
/// is inside it; else the rules of the document structure apply. The second
/// part of the result is the key of a keyed translation whose text is to be
/// read next and handed to [`keyed_translation_read`].
///
/// [`keyed_translation_read`]: crate::parser::metadata::keyed_translation_read
#[verifier::opaque]
pub open spec fn step(m: ParserModel, event: XmlEvent, has_timed_span_tags: bool) -> Result<
    (ParserModel, Option<Seq<char>>),
    Failure,
> {
    if m.body.in_p {
        asking_nothing(p_event(m, event))
    } else if m.in_metadata_section {
        metadata_event(m, event)
    } else {
        asking_nothing(global_event(m, event, has_timed_span_tags))
    }
}

/// Handles one event.
///
/// `has_timed_span_tags` says whether the document holds a `span` with a
/// `begin` attribute. Returns the key of the keyed translation whose text
/// the event opens, if it opens one: the caller reads the text and stores it
/// with [`record_translation`].
///
/// [`record_translation`]: crate::parser::metadata::record_translation
pub fn handle_event(event: &XmlEvent, state: &mut TtmlParserState, has_timed_span_tags: bool) -> (r: Result<
    Option<String>,
    ConvertError,
>)
    requires
        event.well_formed(),
    ensures
        asking_step_agrees(r, final(state).deep_view(), step(old(state).deep_view(), *event, has_timed_span_tags)),
{
    proof {
        reveal(step);
    }
    if state.body_state.in_p {
        handle_p_event(event, state)?;
        Ok(None)
    } else if state.in_metadata_section {
        handle_metadata_event(event, state)
    } else {
        handle_global_event(event, state, has_timed_span_tags)?;
        Ok(None)
    }
}

} // verus!
