//! The parse of a whole document.

use crate::error::ConvertError;
use crate::parser::attrs::{is_failure, Failure};
use crate::parser::events::{handle_event, step};
use crate::parser::laws::{
    lemma_asks_at_start, lemma_initial_ok, lemma_keyed_translation_ok, lemma_step_ok, model_ok,
};
use crate::parser::metadata::{keyed_translation_read, record_translation};
use crate::parser::state::{initial_model, ParserModel, TtmlParserState};
use crate::pattern::{pattern_matches, regex_is_match};
use crate::types::{DefaultLanguageOptions, LyricFormat, ParsedModel, ParsedSourceData};
use crate::xml::{
    answers_left, document_answers, next_answer, open_reader, read_inner_text, reader_position, Answer, ReadError,
    XmlEvent,
};
use vstd::prelude::*;

verus! {

/// The pattern of a `span` start tag with a `begin` attribute.
pub open spec fn timed_span_pattern() -> Seq<char> {
    "<span\\s+[^>]*begin\\s*="@
}

/// Why a parse stops before the end of the document.
pub enum Stop {
    /// The reader finds the document malformed, or cannot read a text that a
    /// rule asks for.
    Malformed,
    /// The bytes of an event are not text.
    Undecodable,
    /// An event breaks a rule of the parser.
    Rule(Failure),
}

/// The error is the one for the given stop: a malformed document comes with
/// the byte offset up to which the reader had come, and a broken rule with
/// the error of the rule.
pub open spec fn stopped_by(e: ConvertError, stop: Stop) -> bool {
    match stop {
        Stop::Malformed => e matches ConvertError::Xml { position: Some(_), .. },
        Stop::Undecodable => e is Encoding,
        Stop::Rule(f) => is_failure(e, f),
    }
}

/// The state in which the parse of the answers ends, from the state `m` on,
/// or why it stops.
///
/// The answers are taken in order. Each event is handled by [`step`]. Where
/// the step asks for the text inside the element that the event opens, the
/// text that the answer tells of is stored by [`keyed_translation_read`],
/// and the answers that the text takes the place of are passed over. The
/// parse ends with the answers, or with the end of the document if that is
/// among them.
pub open spec fn parse_answers(answers: Seq<Answer>, m: ParserModel, has_timed_span_tags: bool) -> Result<
    ParserModel,
    Stop,
>
    decreases answers.len(),
{
    if answers.len() == 0 {
        Ok(m)
    } else {
        let rest = answers.drop_first();
        match answers[0] {
            Answer::Malformed => Err(Stop::Malformed),
            Answer::Undecodable => Err(Stop::Undecodable),
            Answer::Event { event, inner } => if event is Eof {
                Ok(m)
            } else {
                match step(m, event, has_timed_span_tags) {
                    Err(f) => Err(Stop::Rule(f)),
                    Ok((after, None)) => parse_answers(rest, after, has_timed_span_tags),
                    Ok((after, Some(key))) => match inner {
                        None => Err(Stop::Malformed),
                        Some((text, span)) => if span <= rest.len() {
                            parse_answers(
                                rest.skip(span as int),
                                keyed_translation_read(after, key, text),
                                has_timed_span_tags,
                            )
                        } else {
                            Ok(keyed_translation_read(after, key, text))
                        },
                    },
                }
            },
        }
    }
}

/// What the parse of a document gives: the state at its end, or why it stops.
/// The document is read with empty elements answered as a start and an end,
/// and text is not trimmed.
pub open spec fn parse_of(content: Seq<char>, start: ParserModel, has_timed_span_tags: bool) -> Result<
    ParserModel,
    Stop,
> {
    parse_answers(document_answers(content, false, true), start, has_timed_span_tags)
}

/// The result of a parse that ended in the given state.
pub open spec fn parsed_data(m: ParserModel, content: Seq<char>) -> ParsedModel {
    ParsedModel {
        lines: m.lines,
        raw_metadata: m.raw_metadata,
        source_format: LyricFormat::Ttml,
        source_filename: None,
        is_line_timed_source: m.is_line_timing_mode,
        warnings: m.warnings,
        raw_ttml_from_input: Some(content),
        detected_formatted_ttml_input: None,
    }
}

/// A parse that starts from a state that satisfies the invariant of the
/// parser ends in one that does.
pub proof fn lemma_parse_answers_ok(answers: Seq<Answer>, m: ParserModel, has_timed_span_tags: bool)
    requires
        model_ok(m),
    ensures
        parse_answers(answers, m, has_timed_span_tags) matches Ok(after) ==> model_ok(after),
    decreases answers.len(),
{
    if answers.len() > 0 {
        let rest = answers.drop_first();
        match answers[0] {
            Answer::Event { event, inner } => {
                lemma_step_ok(m, event, has_timed_span_tags);
                match step(m, event, has_timed_span_tags) {
                    Ok((after, None)) => lemma_parse_answers_ok(rest, after, has_timed_span_tags),
                    Ok((after, Some(key))) => match inner {
                        Some((text, span)) => {
                            lemma_keyed_translation_ok(after, key, text);
                            if span <= rest.len() {
                                lemma_parse_answers_ok(
                                    rest.skip(span as int),
                                    keyed_translation_read(after, key, text),
                                    has_timed_span_tags,
                                );
                            }
                        },
                        None => {},
                    },
                    Err(_) => {},
                }
            },
            _ => {},
        }
    }
}

/// Turns the final state of a parse into its result.
pub fn finish(state: TtmlParserState, content: &str) -> (data: ParsedSourceData)
    ensures
        data.deep_view() == parsed_data(state.deep_view(), content@),
{
    ParsedSourceData {
        lines: state.lines,
        raw_metadata: state.raw_metadata,
        source_format: LyricFormat::Ttml,
        source_filename: None,
        is_line_timed_source: state.is_line_timing_mode,
        warnings: state.warnings,
        raw_ttml_from_input: Some(String::from_str(content)),
        detected_formatted_ttml_input: None,
    }
}

/// Parses a TTML document.
///
/// The document is read event by event, and each event is handled by the
/// rules of [`step`]. Where the pattern for timed spans does not compile,
/// the parse fails before the document is read. Else the result is what
/// [`parse_of`] says of the document: the lines, metadata and warnings of the
/// state at its end, or the error of the first stop. A failure of the reader
/// comes with the byte offset in the document up to which the reader had
/// come. Every line of a result is well-formed.
pub fn parse_ttml(content: &str, default_languages: &DefaultLanguageOptions) -> (r: Result<
    ParsedSourceData,
    ConvertError,
>)
    ensures
        match pattern_matches(timed_span_pattern(), content@) {
            None => r matches Err(e) && e is Internal,
            Some(found) => match parse_of(
                content@,
                initial_model(
                    default_languages.main.deep_view(),
                    default_languages.translation.deep_view(),
                    default_languages.romanization.deep_view(),
                ),
                found,
            ) {
                Ok(m) => r matches Ok(data) && data.deep_view() == parsed_data(m, content@),
                Err(stop) => r matches Err(e) && stopped_by(e, stop),
            },
        },
        r matches Ok(data) ==> forall|i: int|
            0 <= i < data.deep_view().lines.len() ==> (#[trigger] data.deep_view().lines[i]).well_formed(),
{
    let has_timed_span_tags = match regex_is_match("<span\\s+[^>]*begin\\s*=", content) {
        Ok(found) => found,
        Err(_) => {
            return Err(ConvertError::Internal(String::from_str("the pattern for timed spans does not compile")));
        },
    };
    let mut reader = open_reader(content, false, true);
    let mut state = TtmlParserState::new(default_languages);
    let ghost start = state.deep_view();
    let ghost goal = parse_of(content@, start, has_timed_span_tags);
    proof {
        lemma_initial_ok(
            default_languages.main.deep_view(),
            default_languages.translation.deep_view(),
            default_languages.romanization.deep_view(),
        );
    }
    loop
        invariant_except_break
            goal == parse_answers(answers_left(reader), state.deep_view(), has_timed_span_tags),
        invariant
            pattern_matches(timed_span_pattern(), content@) == Some(has_timed_span_tags),
            start == initial_model(
                default_languages.main.deep_view(),
                default_languages.translation.deep_view(),
                default_languages.romanization.deep_view(),
            ),
            goal == parse_of(content@, start, has_timed_span_tags),
            model_ok(state.deep_view()),
        ensures
            goal == Ok::<ParserModel, Stop>(state.deep_view()),
        decreases answers_left(reader).len(),
    {
        let ghost left = answers_left(reader);
        let ghost before = state.deep_view();
        let event = match next_answer(&mut reader) {
            Ok(event) => event,
            Err(ReadError::Malformed(cause)) => {
                return Err(ConvertError::Xml { error: cause, position: Some(reader_position(&reader)) });
            },
            Err(ReadError::Encoding(cause)) => {
                return Err(ConvertError::Encoding(cause));
            },
        };
        if let XmlEvent::Eof = event {
            break ;
        }
        proof {
            lemma_step_ok(before, event, has_timed_span_tags);
            lemma_asks_at_start(before, event, has_timed_span_tags);
        }
        let asked = match handle_event(&event, &mut state, has_timed_span_tags) {
            Ok(asked) => asked,
            Err(e) => {
                return Err(e);
            },
        };
        match asked {
            Some(key) => {
                let name = match &event {
                    XmlEvent::Start(tag) => tag.name.clone(),
                    _ => String::new(),
                };
                let text = match read_inner_text(&mut reader, name.as_str()) {
                    Ok(text) => text,
                    Err(cause) => {
                        return Err(ConvertError::Xml { error: cause, position: Some(reader_position(&reader)) });
                    },
                };
                proof {
                    lemma_keyed_translation_ok(state.deep_view(), key@, text@);
                }
                record_translation(&mut state, key, text);
            },
            None => {},
        }
    }
    let data = finish(state, content);
    Ok(data)
}

} // verus!
