//! Spans and text inside a paragraph.

use crate::error::ConvertError;
use crate::parser::attrs::{is_failure, attr_raw, attr_text, attr_time, get_raw, get_text, get_time, role_from_raw, role_of, step_agrees, Failure};
use crate::parser::state::{
    BodyModel, LastSyllableInfo, ParagraphModel, ParserModel, SpanContext, SpanModel, SpanRole, TtmlParserState,
};
use crate::parser::support::{concat3, push_model, push_span_text, span_text};
use crate::text::{
    all_whitespace, clean_parentheses_from_bg_text, ends_with_whitespace, is_blank, normalize_text_whitespace,
    normalize_whitespace, str_all_whitespace, str_ends_with_whitespace, strip_parentheses, trim, trim_text,
};
use crate::types::{
    BackgroundModel, BackgroundSection, LyricSyllable, RomanizationEntry, RomanizationModel, SyllableModel,
    TranslationEntry, TranslationModel,
};
use crate::xml::XmlTag;
use vstd::prelude::*;

verus! {

/// The state with one more warning.
pub open spec fn with_warning(m: ParserModel, warning: Seq<char>) -> ParserModel {
    ParserModel { warnings: m.warnings.push(warning), ..m }
}

/// The state with another open paragraph, or none.
pub open spec fn with_paragraph(m: ParserModel, paragraph: Option<ParagraphModel>) -> ParserModel {
    ParserModel { body: BodyModel { paragraph: paragraph, ..m.body }, ..m }
}

/// The state with another note on the last syllable.
pub open spec fn with_last_syllable(m: ParserModel, info: LastSyllableInfo) -> ParserModel {
    ParserModel { body: BodyModel { last_syllable_info: info, ..m.body }, ..m }
}

/// One of the open spans is a background container.
pub open spec fn in_background(stack: Seq<SpanModel>) -> bool {
    exists|i: int| 0 <= i < stack.len() && (#[trigger] stack[i]).role == SpanRole::Background
}

/// The later of two times.
pub open spec fn later(a: u64, b: u64) -> u64 {
    if a >= b {
        a
    } else {
        b
    }
}

/// The time from `start` to `end`, zero where `end` lies before `start`.
pub open spec fn span_length(start: u64, end: u64) -> u64 {
    if end >= start {
        (end - start) as u64
    } else {
        0
    }
}

/// The syllable that a timed generic span with the given text makes. Its
/// text is normalized, and inside a background container stripped of
/// parentheses instead; a span of whitespace alone makes a single space. An
/// end before the start is moved up to the start.
pub open spec fn span_syllable(text: Seq<char>, start: u64, end: u64, background: bool) -> SyllableModel {
    let trimmed = trim(text);
    SyllableModel {
        text: if trimmed.len() == 0 {
            seq![' ']
        } else if background {
            strip_parentheses(trimmed)
        } else {
            normalize_whitespace(trimmed)
        },
        start_ms: start,
        end_ms: later(end, start),
        duration_ms: Some(span_length(start, end)),
        ends_with_space: trimmed.len() > 0 && ends_with_whitespace(text),
    }
}

/// The warning for a syllable whose end lies before its start.
pub open spec fn inverted_warning(text: Seq<char>, start: u64, end: u64) -> Seq<char> {
    "syllable '"@ + text + "' ends before it starts ("@ + span_text(start, end) + "); it is kept"@
}

/// The warning for a span with text and without times in a word-timed document.
pub open spec fn untimed_warning(text: Seq<char>) -> Seq<char> {
    "span without timing in a word-timed document: text '"@ + text + "' is ignored"@
}

/// What the end of a generic span does.
///
/// In a line-timed document the text of the span joins the text of the line.
/// In a word-timed document a span with both times makes a syllable, which
/// joins the background section if a background container is open and the
/// main line otherwise; a span with text and without times is dropped with a
/// warning.
pub open spec fn generic_span_end(m: ParserModel, ctx: SpanModel, text: Seq<char>) -> Result<ParserModel, Failure> {
    if m.is_line_timing_mode {
        match m.body.paragraph {
            Some(p) => Ok(with_paragraph(m, Some(ParagraphModel { line_text: p.line_text + text, ..p }))),
            None => Ok(m),
        }
    } else {
        match (ctx.start_ms, ctx.end_ms) {
            (Some(start), Some(end)) => {
                let warned = if start > end {
                    with_warning(m, inverted_warning(text, start, end))
                } else {
                    m
                };
                let background = in_background(m.body.span_stack);
                let syllable = span_syllable(text, start, end, background);
                match m.body.paragraph {
                    None => Err(Failure::Internal),
                    Some(p) => if background {
                        match p.background {
                            None => Ok(warned),
                            Some(bg) => Ok(
                                with_last_syllable(
                                    with_paragraph(
                                        warned,
                                        Some(
                                            ParagraphModel {
                                                background: Some(
                                                    BackgroundModel {
                                                        syllables: bg.syllables.push(syllable),
                                                        ..bg
                                                    },
                                                ),
                                                ..p
                                            },
                                        ),
                                    ),
                                    LastSyllableInfo::EndedSyllable { was_background: true },
                                ),
                            ),
                        }
                    } else {
                        Ok(
                            with_last_syllable(
                                with_paragraph(
                                    warned,
                                    Some(ParagraphModel { syllables: p.syllables.push(syllable), ..p }),
                                ),
                                LastSyllableInfo::EndedSyllable { was_background: false },
                            ),
                        )
                    },
                }
            },
            _ => if trim(text).len() > 0 {
                Ok(with_warning(m, untimed_warning(trim(text))))
            } else {
                Ok(m)
            },
        }
    }
}

/// Records a warning.
pub fn warn(state: &mut TtmlParserState, message: String)
    ensures
        final(state).deep_view() == with_warning(old(state).deep_view(), message@),
{
    push_model(&mut state.warnings, message);
}

/// Tells whether one of the open spans is a background container.
pub fn stack_in_background(stack: &Vec<SpanContext>) -> (r: bool)
    ensures
        r == in_background(stack.deep_view()),
{
    let n = stack.len();
    let mut i: usize = 0;
    while i < n
        invariant
            i <= n == stack.len(),
            forall|j: int| 0 <= j < i ==> (#[trigger] stack.deep_view()[j]).role != SpanRole::Background,
        decreases n - i,
    {
        if stack[i].role == SpanRole::Background {
            assert(stack.deep_view()[i as int].role == SpanRole::Background);
            return true;
        }
        i += 1;
    }
    false
}

/// Builds the syllable of a timed generic span.
pub fn make_span_syllable(text: &str, start_ms: u64, end_ms: u64, background: bool) -> (r: LyricSyllable)
    ensures
        r.deep_view() == span_syllable(text@, start_ms, end_ms, background),
{
    let trimmed = trim_text(text);
    let blank = trimmed.as_str().is_empty();
    let syllable_text = if blank {
        let s = String::from_str(" ");
        proof {
            reveal_strlit(" ");
            assert(s@ =~= seq![' ']);
        }
        s
    } else if background {
        clean_parentheses_from_bg_text(trimmed.as_str())
    } else {
        normalize_text_whitespace(trimmed.as_str())
    };
    LyricSyllable {
        text: syllable_text,
        start_ms,
        end_ms: if end_ms >= start_ms { end_ms } else { start_ms },
        duration_ms: Some(if end_ms >= start_ms { end_ms - start_ms } else { 0 }),
        ends_with_space: !blank && str_ends_with_whitespace(text),
    }
}

/// Handles the end of a generic span with the text gathered inside it.
pub fn handle_generic_span_end(state: &mut TtmlParserState, ctx: &SpanContext, text: &str) -> (r: Result<
    (),
    ConvertError,
>)
    ensures
        step_agrees(r, final(state).deep_view(), generic_span_end(old(state).deep_view(), ctx.deep_view(), text@)),
{
    if state.is_line_timing_mode {
        match state.body_state.current_p_element_data.take() {
            Some(mut p) => {
                p.line_text_accumulator.append(text);
                state.body_state.current_p_element_data = Some(p);
            },
            None => {},
        }
        return Ok(());
    }
    match (ctx.start_ms, ctx.end_ms) {
        (Some(start_ms), Some(end_ms)) => {
            if start_ms > end_ms {
                let mut message = concat3("syllable '", text, "' ends before it starts (");
                push_span_text(&mut message, start_ms, end_ms);
                message.append("); it is kept");
                warn(state, message);
            }
            let background = stack_in_background(&state.body_state.span_stack);
            let syllable = make_span_syllable(text, start_ms, end_ms, background);
            match state.body_state.current_p_element_data.take() {
                None => {
                    return Err(ConvertError::Internal(String::from_str("a span ended outside a paragraph")));
                },
                Some(mut p) => {
                    if background {
                        match p.background_section_accumulator.take() {
                            Some(mut bg) => {
                                push_model(&mut bg.syllables, syllable);
                                p.background_section_accumulator = Some(bg);
                                state.body_state.last_syllable_info = LastSyllableInfo::EndedSyllable {
                                    was_background: true,
                                };
                            },
                            None => {},
                        }
                    } else {
                        push_model(&mut p.syllables_accumulator, syllable);
                        state.body_state.last_syllable_info = LastSyllableInfo::EndedSyllable {
                            was_background: false,
                        };
                    }
                    state.body_state.current_p_element_data = Some(p);
                },
            }
        },
        _ => {
            let trimmed = trim_text(text);
            if !trimmed.as_str().is_empty() {
                warn(
                    state,
                    concat3("span without timing in a word-timed document: text '", trimmed.as_str(), "' is ignored"),
                );
            }
        },
    }
    Ok(())
}

/// The language of a translation or romanization: that of its span, else the
/// default of the document for its role.
pub open spec fn auxiliary_lang(m: ParserModel, ctx: SpanModel) -> Option<Seq<char>> {
    match ctx.lang {
        Some(l) => Some(l),
        None => match ctx.role {
            SpanRole::Translation => m.default_translation_lang,
            SpanRole::Romanization => m.default_romanization_lang,
            _ => None,
        },
    }
}

/// What the end of a translation or romanization span does: its normalized
/// text, if not empty, becomes an entry of the background section if a
/// background container is open, and of the paragraph otherwise.
pub open spec fn auxiliary_span_end(m: ParserModel, ctx: SpanModel, text: Seq<char>) -> Result<ParserModel, Failure> {
    let normalized = normalize_whitespace(text);
    if normalized.len() == 0 {
        Ok(m)
    } else {
        match m.body.paragraph {
            None => Err(Failure::Internal),
            Some(p) => {
                let background = in_background(m.body.span_stack);
                let lang = auxiliary_lang(m, ctx);
                match ctx.role {
                    SpanRole::Translation => {
                        let entry = TranslationModel { text: normalized, lang: lang };
                        if background {
                            match p.background {
                                None => Ok(m),
                                Some(bg) => Ok(
                                    with_paragraph(
                                        m,
                                        Some(
                                            ParagraphModel {
                                                background: Some(
                                                    BackgroundModel {
                                                        translations: bg.translations.push(entry),
                                                        ..bg
                                                    },
                                                ),
                                                ..p
                                            },
                                        ),
                                    ),
                                ),
                            }
                        } else {
                            Ok(
                                with_paragraph(
                                    m,
                                    Some(ParagraphModel { translations: p.translations.push(entry), ..p }),
                                ),
                            )
                        }
                    },
                    SpanRole::Romanization => {
                        let entry = RomanizationModel { text: normalized, lang: lang, scheme: ctx.scheme };
                        if background {
                            match p.background {
                                None => Ok(m),
                                Some(bg) => Ok(
                                    with_paragraph(
                                        m,
                                        Some(
                                            ParagraphModel {
                                                background: Some(
                                                    BackgroundModel {
                                                        romanizations: bg.romanizations.push(entry),
                                                        ..bg
                                                    },
                                                ),
                                                ..p
                                            },
                                        ),
                                    ),
                                ),
                            }
                        } else {
                            Ok(
                                with_paragraph(
                                    m,
                                    Some(ParagraphModel { romanizations: p.romanizations.push(entry), ..p }),
                                ),
                            )
                        }
                    },
                    _ => Ok(m),
                }
            },
        }
    }
}

/// Handles the end of a translation or romanization span.
pub fn handle_auxiliary_span_end(state: &mut TtmlParserState, ctx: &SpanContext, text: &str) -> (r: Result<
    (),
    ConvertError,
>)
    ensures
        step_agrees(
            r,
            final(state).deep_view(),
            auxiliary_span_end(old(state).deep_view(), ctx.deep_view(), text@),
        ),
{
    let normalized = normalize_text_whitespace(text);
    if normalized.as_str().is_empty() {
        return Ok(());
    }
    let background = stack_in_background(&state.body_state.span_stack);
    let lang = match &ctx.lang {
        Some(l) => Some(l.clone()),
        None => match ctx.role {
            SpanRole::Translation => state.default_translation_lang.clone(),
            SpanRole::Romanization => state.default_romanization_lang.clone(),
            _ => None,
        },
    };
    match state.body_state.current_p_element_data.take() {
        None => {
            return Err(ConvertError::Internal(String::from_str("a span ended outside a paragraph")));
        },
        Some(mut p) => {
            match ctx.role {
                SpanRole::Translation => {
                    let entry = TranslationEntry { text: normalized, lang };
                    if background {
                        match p.background_section_accumulator.take() {
                            Some(mut bg) => {
                                push_model(&mut bg.translations, entry);
                                p.background_section_accumulator = Some(bg);
                            },
                            None => {},
                        }
                    } else {
                        push_model(&mut p.translations_accumulator, entry);
                    }
                },
                SpanRole::Romanization => {
                    let entry = RomanizationEntry { text: normalized, lang, scheme: ctx.scheme.clone() };
                    if background {
                        match p.background_section_accumulator.take() {
                            Some(mut bg) => {
                                push_model(&mut bg.romanizations, entry);
                                p.background_section_accumulator = Some(bg);
                            },
                            None => {},
                        }
                    } else {
                        push_model(&mut p.romanizations_accumulator, entry);
                    }
                },
                _ => {},
            }
            state.body_state.current_p_element_data = Some(p);
        },
    }
    Ok(())
}

/// The earliest start among the syllables; zero where there is none.
pub open spec fn earliest_start(syllables: Seq<SyllableModel>) -> u64
    decreases syllables.len(),
{
    if syllables.len() == 0 {
        0
    } else if syllables.len() == 1 {
        syllables[0].start_ms
    } else {
        let rest = earliest_start(syllables.drop_last());
        if syllables.last().start_ms < rest {
            syllables.last().start_ms
        } else {
            rest
        }
    }
}

/// The latest end among the syllables; zero where there is none.
pub open spec fn latest_end(syllables: Seq<SyllableModel>) -> u64
    decreases syllables.len(),
{
    if syllables.len() == 0 {
        0
    } else if syllables.len() == 1 {
        syllables[0].end_ms
    } else {
        let rest = latest_end(syllables.drop_last());
        if syllables.last().end_ms > rest {
            syllables.last().end_ms
        } else {
            rest
        }
    }
}

/// The time window of the syllables: earliest start and latest end.
pub fn syllable_window(syllables: &Vec<LyricSyllable>) -> (r: (u64, u64))
    ensures
        r.0 == earliest_start(syllables.deep_view()),
        r.1 == latest_end(syllables.deep_view()),
{
    let ghost all = syllables.deep_view();
    if syllables.len() == 0 {
        return (0, 0);
    }
    let mut start: u64 = syllables[0].start_ms;
    let mut end: u64 = syllables[0].end_ms;
    let mut i: usize = 1;
    assert(all.subrange(0, 1)[0] == all[0]);
    while i < syllables.len()
        invariant
            1 <= i <= syllables.len(),
            all == syllables.deep_view(),
            start == earliest_start(all.subrange(0, i as int)),
            end == latest_end(all.subrange(0, i as int)),
        decreases syllables.len() - i,
    {
        proof {
            let next = all.subrange(0, i + 1);
            assert(next.drop_last() == all.subrange(0, i as int));
            assert(next.last() == all[i as int]);
        }
        if syllables[i].start_ms < start {
            start = syllables[i].start_ms;
        }
        if syllables[i].end_ms > end {
            end = syllables[i].end_ms;
        }
        i += 1;
    }
    assert(all.subrange(0, syllables.len() as int) == all);
    (start, end)
}

/// The warning for direct text in a background container that has syllables.
pub open spec fn background_text_warning(text: Seq<char>) -> Seq<char> {
    "text '"@ + text + "' directly inside a background span that has syllables is ignored"@
}

/// The warning for direct text in a background container without times.
pub open spec fn background_untimed_warning(text: Seq<char>) -> Seq<char> {
    "text '"@ + text + "' directly inside a background span without timing is ignored"@
}

/// The background section with the window of its syllables, where the
/// container gives no full window of its own and there are syllables.
pub open spec fn settle_window(bg: BackgroundModel, ctx: SpanModel) -> BackgroundModel {
    if (ctx.start_ms is None || ctx.end_ms is None) && bg.syllables.len() > 0 {
        BackgroundModel {
            start_ms: earliest_start(bg.syllables),
            end_ms: latest_end(bg.syllables),
            ..bg
        }
    } else {
        bg
    }
}

/// The syllable that text directly inside a timed background container makes.
pub open spec fn background_text_syllable(text: Seq<char>, start: u64, end: u64) -> SyllableModel {
    SyllableModel {
        text: normalize_whitespace(trim(text)),
        start_ms: start,
        end_ms: later(end, start),
        duration_ms: Some(span_length(start, end)),
        ends_with_space: ends_with_whitespace(text),
    }
}

/// What the end of a background container does: the section takes the
/// window of its syllables where the container gives none, and text directly
/// inside the container becomes the only syllable of a section that has none
/// and has times, and is dropped with a warning otherwise.
pub open spec fn background_span_end(m: ParserModel, ctx: SpanModel, text: Seq<char>) -> Result<ParserModel, Failure> {
    match m.body.paragraph {
        None => Err(Failure::Internal),
        Some(p) => {
            let settled = match p.background {
                Some(bg) => Some(settle_window(bg, ctx)),
                None => None,
            };
            let settled_paragraph = ParagraphModel { background: settled, ..p };
            let trimmed = trim(text);
            if trimmed.len() == 0 {
                Ok(with_paragraph(m, Some(settled_paragraph)))
            } else {
                match (ctx.start_ms, ctx.end_ms) {
                    (Some(start), Some(end)) => match settled {
                        None => Ok(with_paragraph(m, Some(settled_paragraph))),
                        Some(bg) => if bg.syllables.len() == 0 {
                            Ok(
                                with_last_syllable(
                                    with_paragraph(
                                        m,
                                        Some(
                                            ParagraphModel {
                                                background: Some(
                                                    BackgroundModel {
                                                        syllables: bg.syllables.push(
                                                            background_text_syllable(text, start, end),
                                                        ),
                                                        ..bg
                                                    },
                                                ),
                                                ..p
                                            },
                                        ),
                                    ),
                                    LastSyllableInfo::EndedSyllable { was_background: true },
                                ),
                            )
                        } else {
                            Ok(with_warning(with_paragraph(m, Some(settled_paragraph)), background_text_warning(trimmed)))
                        },
                    },
                    _ => Ok(with_warning(with_paragraph(m, Some(settled_paragraph)), background_untimed_warning(trimmed))),
                }
            }
        },
    }
}

/// Handles the end of a background container.
pub fn handle_background_span_end(state: &mut TtmlParserState, ctx: &SpanContext, text: &str) -> (r: Result<
    (),
    ConvertError,
>)
    ensures
        step_agrees(
            r,
            final(state).deep_view(),
            background_span_end(old(state).deep_view(), ctx.deep_view(), text@),
        ),
{
    let mut p = match state.body_state.current_p_element_data.take() {
        None => {
            return Err(ConvertError::Internal(String::from_str("a span ended outside a paragraph")));
        },
        Some(p) => p,
    };
    let timed = ctx.start_ms.is_some() && ctx.end_ms.is_some();
    let mut has_section = false;
    let mut has_syllables = false;
    match p.background_section_accumulator.take() {
        Some(mut bg) => {
            has_section = true;
            has_syllables = bg.syllables.len() > 0;
            if !timed && has_syllables {
                let window = syllable_window(&bg.syllables);
                bg.start_ms = window.0;
                bg.end_ms = window.1;
            }
            p.background_section_accumulator = Some(bg);
        },
        None => {},
    }
    let trimmed = trim_text(text);
    let mut warning: Option<String> = None;
    let mut made_syllable = false;
    if !trimmed.as_str().is_empty() {
        match (ctx.start_ms, ctx.end_ms) {
            (Some(start_ms), Some(end_ms)) => {
                if has_section {
                    if !has_syllables {
                        match p.background_section_accumulator.take() {
                            Some(mut bg) => {
                                let syllable = LyricSyllable {
                                    text: normalize_text_whitespace(trimmed.as_str()),
                                    start_ms,
                                    end_ms: if end_ms >= start_ms { end_ms } else { start_ms },
                                    duration_ms: Some(if end_ms >= start_ms { end_ms - start_ms } else { 0 }),
                                    ends_with_space: str_ends_with_whitespace(text),
                                };
                                push_model(&mut bg.syllables, syllable);
                                p.background_section_accumulator = Some(bg);
                                made_syllable = true;
                            },
                            None => {},
                        }
                    } else {
                        warning = Some(
                            concat3(
                                "text '",
                                trimmed.as_str(),
                                "' directly inside a background span that has syllables is ignored",
                            ),
                        );
                    }
                }
            },
            _ => {
                warning = Some(
                    concat3(
                        "text '",
                        trimmed.as_str(),
                        "' directly inside a background span without timing is ignored",
                    ),
                );
            },
        }
    }
    state.body_state.current_p_element_data = Some(p);
    if made_syllable {
        state.body_state.last_syllable_info = LastSyllableInfo::EndedSyllable { was_background: true };
    }
    match warning {
        Some(w) => warn(state, w),
        None => {},
    }
    Ok(())
}

/// What the end of a span does: the innermost open span is closed, the text
/// gathered inside it is taken, and the span is handled by its role. With no
/// span open, nothing but the note on the last syllable changes.
pub open spec fn span_end(m: ParserModel) -> Result<ParserModel, Failure> {
    let m1 = with_last_syllable(m, LastSyllableInfo::NoSyllable);
    if m.body.span_stack.len() == 0 {
        Ok(m1)
    } else {
        let ctx = m.body.span_stack.last();
        let m2 = ParserModel {
            text_buffer: Seq::empty(),
            body: BodyModel { span_stack: m.body.span_stack.drop_last(), ..m1.body },
            ..m1
        };
        match ctx.role {
            SpanRole::Generic => generic_span_end(m2, ctx, m.text_buffer),
            SpanRole::Translation => auxiliary_span_end(m2, ctx, m.text_buffer),
            SpanRole::Romanization => auxiliary_span_end(m2, ctx, m.text_buffer),
            SpanRole::Background => background_span_end(m2, ctx, m.text_buffer),
        }
    }
}

/// Handles the end of a span.
pub fn process_span_end(state: &mut TtmlParserState) -> (r: Result<(), ConvertError>)
    ensures
        step_agrees(r, final(state).deep_view(), span_end(old(state).deep_view())),
{
    state.body_state.last_syllable_info = LastSyllableInfo::NoSyllable;
    let ghost stack = state.body_state.span_stack;
    match state.body_state.span_stack.pop() {
        None => Ok(()),
        Some(ctx) => {
            assert(state.body_state.span_stack.deep_view() =~= stack.deep_view().drop_last());
            assert(ctx.deep_view() == stack.deep_view().last());
            let text = state.text_buffer.clone();
            state.text_buffer = String::new();
            match ctx.role {
                SpanRole::Generic => handle_generic_span_end(state, &ctx, text.as_str()),
                SpanRole::Translation => handle_auxiliary_span_end(state, &ctx, text.as_str()),
                SpanRole::Romanization => handle_auxiliary_span_end(state, &ctx, text.as_str()),
                SpanRole::Background => handle_background_span_end(state, &ctx, text.as_str()),
            }
        },
    }
}

/// The first of two optional values that is there.
pub open spec fn or_else<T>(a: Option<T>, b: Option<T>) -> Option<T> {
    match a {
        Some(_) => a,
        None => b,
    }
}

/// The value inside, or zero.
pub open spec fn or_zero(a: Option<u64>) -> u64 {
    match a {
        Some(v) => v,
        None => 0,
    }
}

/// The state after a span was opened with the given attributes: the span is
/// pushed, and a background container opens the background section of the
/// paragraph if the paragraph has none yet.
pub open spec fn open_span(m: ParserModel, ctx: SpanModel) -> ParserModel {
    let m1 = ParserModel {
        text_buffer: Seq::empty(),
        body: BodyModel { span_stack: m.body.span_stack.push(ctx), ..m.body },
        ..m
    };
    match m.body.paragraph {
        Some(p) => if ctx.role == SpanRole::Background && p.background is None {
            with_paragraph(
                m1,
                Some(
                    ParagraphModel {
                        background: Some(
                            BackgroundModel {
                                start_ms: or_zero(ctx.start_ms),
                                end_ms: or_zero(ctx.end_ms),
                                syllables: Seq::empty(),
                                translations: Seq::empty(),
                                romanizations: Seq::empty(),
                            },
                        ),
                        ..p
                    },
                ),
            )
        } else {
            m1
        },
        None => m1,
    }
}

/// The span that a start tag opens: role from `ttm:role` or `role`, language
/// and scheme from `xml:lang` and `xml:scheme`, times from `begin` and `end`.
/// The attributes are read in that order, and the first failure is the result.
pub open spec fn span_of_tag(tag: XmlTag) -> Result<SpanModel, Failure> {
    match attr_raw(tag, "ttm:role"@) {
        Err(f) => Err(f),
        Ok(role) => match attr_raw(tag, "role"@) {
            Err(f) => Err(f),
            Ok(alias) => match attr_text(tag, "xml:lang"@) {
                Err(f) => Err(f),
                Ok(lang) => match attr_text(tag, "xml:scheme"@) {
                    Err(f) => Err(f),
                    Ok(scheme) => match attr_time(tag, "begin"@) {
                        Err(f) => Err(f),
                        Ok(start) => match attr_time(tag, "end"@) {
                            Err(f) => Err(f),
                            Ok(end) => Ok(
                                SpanModel {
                                    role: role_of(or_else(role, alias)),
                                    lang: lang,
                                    scheme: scheme,
                                    start_ms: start,
                                    end_ms: end,
                                },
                            ),
                        },
                    },
                },
            },
        }
    }
}

/// What the start of a span does.
pub open spec fn span_start(m: ParserModel, tag: XmlTag) -> Result<ParserModel, Failure> {
    match span_of_tag(tag) {
        Err(f) => Err(f),
        Ok(ctx) => Ok(open_span(m, ctx)),
    }
}

/// Reads the attributes of a span.
pub fn read_span(tag: &XmlTag) -> (r: Result<SpanContext, ConvertError>)
    requires
        tag.well_formed(),
    ensures
        match span_of_tag(*tag) {
            Ok(ctx) => r matches Ok(c) && c.deep_view() == ctx,
            Err(f) => r matches Err(e) && is_failure(e, f),
        },
{
    let role_raw = get_raw(tag, "ttm:role")?;
    let alias_raw = get_raw(tag, "role")?;
    let chosen = if role_raw.is_some() { role_raw } else { alias_raw };
    let role = role_from_raw(&chosen);
    let lang = get_text(tag, "xml:lang")?;
    let scheme = get_text(tag, "xml:scheme")?;
    let start_ms = get_time(tag, "begin")?;
    let end_ms = get_time(tag, "end")?;
    Ok(SpanContext { role, lang, scheme, start_ms, end_ms })
}

/// Handles the start of a span.
pub fn process_span_start(tag: &XmlTag, state: &mut TtmlParserState) -> (r: Result<(), ConvertError>)
    requires
        tag.well_formed(),
    ensures
        step_agrees(r, final(state).deep_view(), span_start(old(state).deep_view(), *tag)),
{
    state.text_buffer = String::new();
    let ctx = read_span(tag)?;
    let role = ctx.role;
    let start_ms = ctx.start_ms;
    let end_ms = ctx.end_ms;
    push_model(&mut state.body_state.span_stack, ctx);
    if role == SpanRole::Background {
        match state.body_state.current_p_element_data.take() {
            Some(mut p) => {
                if p.background_section_accumulator.is_none() {
                    let section = BackgroundSection {
                        start_ms: match start_ms {
                            Some(v) => v,
                            None => 0,
                        },
                        end_ms: match end_ms {
                            Some(v) => v,
                            None => 0,
                        },
                        syllables: Vec::new(),
                        translations: Vec::new(),
                        romanizations: Vec::new(),
                    };
                    assert(section.syllables.deep_view() =~= Seq::empty());
                    assert(section.translations.deep_view() =~= Seq::empty());
                    assert(section.romanizations.deep_view() =~= Seq::empty());
                    p.background_section_accumulator = Some(section);
                }
                state.body_state.current_p_element_data = Some(p);
            },
            None => {},
        }
    }
    Ok(())
}

/// The syllables with the trailing space of the last one set.
pub open spec fn with_last_space(syllables: Seq<SyllableModel>, value: bool) -> Seq<SyllableModel> {
    if syllables.len() > 0 {
        syllables.update(
            syllables.len() - 1,
            SyllableModel { ends_with_space: value, ..syllables.last() },
        )
    } else {
        syllables
    }
}

/// Sets the trailing space of the last syllable, if there is one.
pub fn set_last_space(syllables: &mut Vec<LyricSyllable>, value: bool)
    ensures
        final(syllables).deep_view() == with_last_space(old(syllables).deep_view(), value),
{
    let ghost before = *syllables;
    match syllables.pop() {
        Some(mut last) => {
            last.ends_with_space = value;
            let ghost changed = last;
            syllables.push(last);
            assert(syllables.deep_view() =~= with_last_space(before.deep_view(), value));
        },
        None => {},
    }
}

/// The paragraph with a space after the last syllable of the main line, or
/// of the background section.
pub open spec fn space_after_last(p: ParagraphModel, background: bool) -> ParagraphModel {
    if background {
        match p.background {
            Some(bg) => ParagraphModel {
                background: Some(BackgroundModel { syllables: with_last_space(bg.syllables, true), ..bg }),
                ..p
            },
            None => p,
        }
    } else {
        ParagraphModel { syllables: with_last_space(p.syllables, true), ..p }
    }
}

/// What character data inside a paragraph does.
///
/// Whitespace alone right after a span that made a syllable marks that
/// syllable as followed by a space. Other whitespace is dropped. Any other
/// text joins the text of the innermost open span, or the text of the line
/// where no span is open.
pub open spec fn text_event(m: ParserModel, text: Seq<char>) -> ParserModel {
    if !m.body.in_p {
        m
    } else if m.body.last_syllable_info is EndedSyllable && text.len() > 0 && all_whitespace(text) {
        let marked = match m.body.paragraph {
            Some(p) => with_paragraph(
                m,
                Some(space_after_last(p, m.body.last_syllable_info->was_background)),
            ),
            None => m,
        };
        with_last_syllable(marked, LastSyllableInfo::NoSyllable)
    } else if trim(text).len() == 0 {
        m
    } else {
        let m1 = with_last_syllable(m, LastSyllableInfo::NoSyllable);
        if m.body.span_stack.len() > 0 {
            ParserModel { text_buffer: m.text_buffer + text, ..m1 }
        } else {
            match m.body.paragraph {
                Some(p) => with_paragraph(m1, Some(ParagraphModel { line_text: p.line_text + text, ..p })),
                None => m1,
            }
        }
    }
}

/// Adds text to the innermost open span, or to the line where none is open.
pub fn add_text(state: &mut TtmlParserState, text: &str)
    ensures
        final(state).deep_view() == (if old(state).deep_view().body.span_stack.len() > 0 {
            ParserModel { text_buffer: old(state).deep_view().text_buffer + text@, ..old(state).deep_view() }
        } else {
            match old(state).deep_view().body.paragraph {
                Some(p) => with_paragraph(
                    old(state).deep_view(),
                    Some(ParagraphModel { line_text: p.line_text + text@, ..p }),
                ),
                None => old(state).deep_view(),
            }
        }),
{
    if state.body_state.span_stack.len() > 0 {
        state.text_buffer.append(text);
    } else {
        match state.body_state.current_p_element_data.take() {
            Some(mut p) => {
                p.line_text_accumulator.append(text);
                state.body_state.current_p_element_data = Some(p);
            },
            None => {},
        }
    }
}

/// Handles character data inside a paragraph.
pub fn process_text_event(text: &str, state: &mut TtmlParserState)
    ensures
        final(state).deep_view() == text_event(old(state).deep_view(), text@),
{
    if !state.body_state.in_p {
        return ;
    }
    match state.body_state.last_syllable_info {
        LastSyllableInfo::EndedSyllable { was_background } => {
            if !text.is_empty() && str_all_whitespace(text) {
                match state.body_state.current_p_element_data.take() {
                    Some(mut p) => {
                        if was_background {
                            match p.background_section_accumulator.take() {
                                Some(mut bg) => {
                                    set_last_space(&mut bg.syllables, true);
                                    p.background_section_accumulator = Some(bg);
                                },
                                None => {},
                            }
                        } else {
                            set_last_space(&mut p.syllables_accumulator, true);
                        }
                        state.body_state.current_p_element_data = Some(p);
                    },
                    None => {},
                }
                state.body_state.last_syllable_info = LastSyllableInfo::NoSyllable;
                return ;
            }
        },
        LastSyllableInfo::NoSyllable => {},
    }
    if is_blank(text) {
        return ;
    }
    state.body_state.last_syllable_info = LastSyllableInfo::NoSyllable;
    add_text(state, text);
}

} // verus!
