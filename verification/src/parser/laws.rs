//! What holds of every state that the parser reaches.

use crate::parser::body::{
    auxiliary_span_end, background_span_end, background_text_syllable, generic_span_end, in_background, open_span,
    span_end, span_of_tag, span_syllable, text_event, with_last_space, with_last_syllable,
};
use crate::parser::attrs::{attr_raw, optional_text, Failure};
use crate::parser::body::or_else;
use crate::parser::events::{
    global_event, metadata_event, p_event, paragraph_end, paragraph_reference, paragraph_start, step,
};
use crate::parser::finalize::{
    agent_or_default, attach_keyed_translation, lemma_paragraph_line_well_formed, paragraph_line,
};
use crate::parser::metadata::{
    agent_start, agent_tag, end_rule, keyed_translation_read, meta_tag, metadata_end, metadata_reference,
    metadata_start, plain_end, plain_start, start_rule, store_xml_id, translation_start, EndRule, StartRule,
};
use crate::parser::state::{initial_model, BodyModel, LastSyllableInfo, ParagraphModel, ParserModel, SpanModel};
use crate::types::{syllables_ordered, SyllableModel};
use crate::xml::{XmlEvent, XmlTag};
use vstd::prelude::*;

verus! {

/// No syllable gathered for the open paragraph ends before it starts.
pub open spec fn paragraph_ok(p: Option<ParagraphModel>) -> bool {
    p matches Some(p) ==> {
        &&& syllables_ordered(p.syllables)
        &&& p.background matches Some(bg) ==> syllables_ordered(bg.syllables)
    }
}

/// Every line emitted so far is well-formed.
pub open spec fn lines_ok(m: ParserModel) -> bool {
    forall|i: int| 0 <= i < m.lines.len() ==> (#[trigger] m.lines[i]).well_formed()
}

/// The invariant of the parser: every line emitted so far is well-formed,
/// and no syllable gathered for the open paragraph ends before it starts.
pub open spec fn model_ok(m: ParserModel) -> bool {
    paragraph_ok(m.body.paragraph) && lines_ok(m)
}

/// Setting the trailing space of the last syllable moves no time.
pub proof fn lemma_last_space_ordered(syllables: Seq<SyllableModel>, value: bool)
    requires
        syllables_ordered(syllables),
    ensures
        syllables_ordered(with_last_space(syllables, value)),
{
    let after = with_last_space(syllables, value);
    assert forall|i: int| 0 <= i < after.len() implies (#[trigger] after[i]).end_ms >= after[i].start_ms by {
        assert(after[i].end_ms == syllables[i].end_ms);
        assert(after[i].start_ms == syllables[i].start_ms);
    }
}

/// A syllable that does not end before it starts may join ordered syllables.
pub proof fn lemma_push_ordered(syllables: Seq<SyllableModel>, syllable: SyllableModel)
    requires
        syllables_ordered(syllables),
        syllable.end_ms >= syllable.start_ms,
    ensures
        syllables_ordered(syllables.push(syllable)),
{
    let after = syllables.push(syllable);
    assert forall|i: int| 0 <= i < after.len() implies (#[trigger] after[i]).end_ms >= after[i].start_ms by {
        if i < syllables.len() {
            assert(after[i] == syllables[i]);
        }
    }
}

/// The end of a generic span keeps the invariant.
pub proof fn lemma_generic_span_end_ok(m: ParserModel, ctx: SpanModel, text: Seq<char>)
    requires
        model_ok(m),
    ensures
        generic_span_end(m, ctx, text) matches Ok(after) ==> model_ok(after),
{
    match generic_span_end(m, ctx, text) {
        Ok(after) => {
            assert(after.lines == m.lines);
            match (m.body.paragraph, ctx.start_ms, ctx.end_ms) {
                (Some(p), Some(start), Some(end)) => {
                    let background = in_background(m.body.span_stack);
                    let syllable = span_syllable(text, start, end, background);
                    lemma_push_ordered(p.syllables, syllable);
                    match p.background {
                        Some(bg) => lemma_push_ordered(bg.syllables, syllable),
                        None => {},
                    }
                },
                _ => {},
            }
        },
        Err(_) => {},
    }
}

/// The end of a translation or romanization span keeps the invariant.
pub proof fn lemma_auxiliary_span_end_ok(m: ParserModel, ctx: SpanModel, text: Seq<char>)
    requires
        model_ok(m),
    ensures
        auxiliary_span_end(m, ctx, text) matches Ok(after) ==> model_ok(after),
{
    match auxiliary_span_end(m, ctx, text) {
        Ok(after) => {
            assert(after.lines == m.lines);
        },
        Err(_) => {},
    }
}

/// The end of a background container keeps the invariant.
pub proof fn lemma_background_span_end_ok(m: ParserModel, ctx: SpanModel, text: Seq<char>)
    requires
        model_ok(m),
    ensures
        background_span_end(m, ctx, text) matches Ok(after) ==> model_ok(after),
{
    match background_span_end(m, ctx, text) {
        Ok(after) => {
            assert(after.lines == m.lines);
            match (m.body.paragraph, ctx.start_ms, ctx.end_ms) {
                (Some(p), Some(start), Some(end)) => {
                    match p.background {
                        Some(bg) => lemma_push_ordered(
                            bg.syllables,
                            background_text_syllable(text, start, end),
                        ),
                        None => {},
                    }
                },
                _ => {},
            }
        },
        Err(_) => {},
    }
}

/// The end of a span keeps the invariant.
pub proof fn lemma_span_end_ok(m: ParserModel)
    requires
        model_ok(m),
    ensures
        span_end(m) matches Ok(after) ==> model_ok(after),
{
    if m.body.span_stack.len() > 0 {
        let ctx = m.body.span_stack.last();
        let m1 = with_last_syllable(m, LastSyllableInfo::NoSyllable);
        let m2 = ParserModel {
            text_buffer: Seq::empty(),
            body: BodyModel { span_stack: m.body.span_stack.drop_last(), ..m1.body },
            ..m1
        };
        assert(model_ok(m2));
        lemma_generic_span_end_ok(m2, ctx, m.text_buffer);
        lemma_auxiliary_span_end_ok(m2, ctx, m.text_buffer);
        lemma_background_span_end_ok(m2, ctx, m.text_buffer);
    }
}

/// Character data inside a paragraph keeps the invariant.
pub proof fn lemma_text_event_ok(m: ParserModel, text: Seq<char>)
    requires
        model_ok(m),
    ensures
        model_ok(text_event(m, text)),
{
    let after = text_event(m, text);
    assert(after.lines == m.lines);
    match m.body.paragraph {
        Some(p) => {
            lemma_last_space_ordered(p.syllables, true);
            match p.background {
                Some(bg) => lemma_last_space_ordered(bg.syllables, true),
                None => {},
            }
        },
        None => {},
    }
}

/// The end of a paragraph keeps the invariant: the line it emits is well-formed.
pub proof fn lemma_paragraph_end_ok(m: ParserModel)
    requires
        model_ok(m),
    ensures
        model_ok(paragraph_end(m)),
{
    let after = paragraph_end(m);
    match m.body.paragraph {
        Some(p) => {
            let attached = attach_keyed_translation(p, m.metadata.translation_map);
            lemma_paragraph_line_well_formed(attached, m.is_line_timing_mode);
            let line = paragraph_line(attached, m.is_line_timing_mode);
            assert forall|i: int| 0 <= i < after.lines.len() implies (#[trigger] after.lines[i]).well_formed() by {
                if i < m.lines.len() {
                    assert(after.lines[i] == m.lines[i]);
                }
            }
        },
        None => {
            assert(after.lines == m.lines);
        },
    }
}

/// An event inside a paragraph keeps the invariant.
pub proof fn lemma_p_event_ok(m: ParserModel, event: XmlEvent)
    requires
        model_ok(m),
    ensures
        p_event(m, event) matches Ok(after) ==> model_ok(after),
{
    match event {
        XmlEvent::Start(tag) => {
            match span_of_tag(tag) {
                Ok(ctx) => {
                    assert(open_span(m, ctx).lines == m.lines);
                },
                Err(_) => {},
            }
        },
        XmlEvent::Text(text) => {
            lemma_text_event_ok(m, text@);
        },
        XmlEvent::GeneralRef(name) => {
            assert(paragraph_reference(m, name@).lines == m.lines);
        },
        XmlEvent::End(name) => {
            lemma_paragraph_end_ok(m);
            lemma_span_end_ok(m);
        },
        _ => {},
    }
}

/// An event outside the metadata and outside any paragraph keeps the invariant.
pub proof fn lemma_global_event_ok(m: ParserModel, event: XmlEvent, has_timed_span_tags: bool)
    requires
        model_ok(m),
    ensures
        global_event(m, event, has_timed_span_tags) matches Ok(after) ==> model_ok(after),
{
    match global_event(m, event, has_timed_span_tags) {
        Ok(after) => {
            assert(after.lines == m.lines);
        },
        Err(_) => {},
    }
}

/// An event inside the metadata keeps the invariant.
pub proof fn lemma_metadata_event_ok(m: ParserModel, event: XmlEvent)
    requires
        model_ok(m),
    ensures
        metadata_event(m, event) matches Ok((after, _)) ==> model_ok(after),
{
    lemma_metadata_event_body(m, event);
    lemma_metadata_event_extends(m, event);
    match metadata_event(m, event) {
        Ok((after, _)) => {
            assert(after.lines.len() == m.lines.len());
            assert(after.lines =~= m.lines);
        },
        Err(_) => {},
    }
}

/// Every step keeps the invariant of the parser.
pub proof fn lemma_step_ok(m: ParserModel, event: XmlEvent, has_timed_span_tags: bool)
    requires
        model_ok(m),
    ensures
        step(m, event, has_timed_span_tags) matches Ok((after, _)) ==> model_ok(after),
{
    reveal(step);
    lemma_p_event_ok(m, event);
    lemma_metadata_event_ok(m, event);
    lemma_global_event_ok(m, event, has_timed_span_tags);
}

/// Storing a keyed translation keeps the invariant of the parser.
pub proof fn lemma_keyed_translation_ok(m: ParserModel, key: Seq<char>, text: Seq<char>)
    requires
        model_ok(m),
    ensures
        model_ok(keyed_translation_read(m, key, text)),
{
    assert(keyed_translation_read(m, key, text).lines == m.lines);
}

/// The invariant of the parser holds before the first event.
pub proof fn lemma_initial_ok(main: Option<Seq<char>>, translation: Option<Seq<char>>, romanization: Option<Seq<char>>)
    ensures
        model_ok(initial_model(main, translation, romanization)),
{
}

/// The lines and the warnings of `before` are still there in `after`, in
/// order and at the front, and at most one line was added.
pub open spec fn extends(before: ParserModel, after: ParserModel) -> bool {
    &&& before.lines.is_prefix_of(after.lines)
    &&& after.lines.len() <= before.lines.len() + 1
    &&& before.warnings.is_prefix_of(after.warnings)
}

/// The end of a span emits no line and keeps the warnings raised so far.
pub proof fn lemma_span_end_extends(m: ParserModel)
    ensures
        span_end(m) matches Ok(after) ==> extends(m, after),
{
    match span_end(m) {
        Ok(after) => {
            assert(after.lines == m.lines);
            assert(m.warnings.is_prefix_of(after.warnings)) by {
                if after.warnings != m.warnings {
                    assert(after.warnings.len() == m.warnings.len() + 1);
                    assert(after.warnings.subrange(0, m.warnings.len() as int) =~= m.warnings);
                }
            }
        },
        Err(_) => {},
    }
}

/// The end of a paragraph emits at most one line, after the lines emitted
/// so far, and keeps the warnings raised so far.
pub proof fn lemma_paragraph_end_extends(m: ParserModel)
    ensures
        extends(m, paragraph_end(m)),
{
    let after = paragraph_end(m);
    assert(after.lines.subrange(0, m.lines.len() as int) =~= m.lines);
    assert(after.warnings.subrange(0, m.warnings.len() as int) =~= m.warnings);
}

/// An event inside a paragraph keeps what was emitted so far.
pub proof fn lemma_p_event_extends(m: ParserModel, event: XmlEvent)
    ensures
        p_event(m, event) matches Ok(after) ==> extends(m, after),
{
    match p_event(m, event) {
        Ok(after) => {
            lemma_span_end_extends(m);
            lemma_paragraph_end_extends(m);
            if after.lines == m.lines {
                assert(m.warnings.is_prefix_of(after.warnings)) by {
                    if after.warnings != m.warnings {
                        assert(after.warnings.subrange(0, m.warnings.len() as int) =~= m.warnings);
                    }
                }
            }
        },
        Err(_) => {},
    }
}

/// An event outside the metadata and outside any paragraph keeps what was
/// emitted so far.
pub proof fn lemma_global_event_extends(m: ParserModel, event: XmlEvent, has_timed_span_tags: bool)
    ensures
        global_event(m, event, has_timed_span_tags) matches Ok(after) ==> extends(m, after),
{
    match global_event(m, event, has_timed_span_tags) {
        Ok(after) => {
            assert(after.lines == m.lines);
            assert(after.warnings.subrange(0, m.warnings.len() as int) =~= m.warnings);
        },
        Err(_) => {},
    }
}

/// Warnings were added to those of `before`, or none, and the lines are the same.
pub open spec fn same_lines(before: ParserModel, after: ParserModel) -> bool {
    &&& after.lines == before.lines
    &&& before.warnings.is_prefix_of(after.warnings)
}

/// Recording raw metadata or an `xml:id` emits no line and keeps the warnings.
proof fn lemma_tags_extend(m: ParserModel, tag: XmlTag)
    ensures
        meta_tag(m, tag) matches Ok(after) ==> same_lines(m, after),
        agent_tag(m, tag) matches Ok((after, _)) ==> same_lines(m, after),
        agent_start(m, tag) matches Ok(after) ==> same_lines(m, after),
        translation_start(m, tag) matches Ok(after) ==> same_lines(m, after),
{
    match agent_tag(m, tag) {
        Ok((after, Some(id))) => {
            let stored = store_xml_id(m, id);
            assert(stored.warnings.subrange(0, m.warnings.len() as int) =~= m.warnings);
            assert(after.warnings == stored.warnings);
        },
        _ => {},
    }
    match agent_start(m, tag) {
        Ok(after) => {
            assert(after.warnings == agent_tag(m, tag)->Ok_0.0.warnings);
        },
        _ => {},
    }
}

/// A start tag inside the metadata emits no line and keeps the warnings.
proof fn lemma_metadata_start_extends(m: ParserModel, tag: XmlTag)
    ensures
        metadata_start(m, tag) matches Ok((after, _)) ==> same_lines(m, after),
{
    lemma_tags_extend(m, tag);
    match start_rule(m.metadata, tag.name@) {
        StartRule::Meta => {},
        StartRule::Plain(kind) => {
            assert(plain_start(m, kind).warnings == m.warnings);
        },
        StartRule::Translation => {},
        StartRule::KeyedText => {},
        StartRule::Songwriter => {},
        StartRule::Agent => {},
        StartRule::AgentName => {},
        StartRule::Field => {},
        StartRule::Skip => {},
    }
}

/// An end tag inside the metadata emits no line and keeps the warnings.
proof fn lemma_metadata_end_extends(m: ParserModel, name: Seq<char>)
    ensures
        same_lines(m, metadata_end(m, name)),
{
    match end_rule(m.metadata, name) {
        EndRule::Plain(kind) => {
            assert(plain_end(m, kind).warnings == m.warnings);
        },
        EndRule::Songwriter => {},
        EndRule::AgentName => {},
        EndRule::Field => {},
        EndRule::Skip => {},
    }
}

/// An event inside the metadata keeps what was emitted so far, and emits
/// no line.
pub proof fn lemma_metadata_event_extends(m: ParserModel, event: XmlEvent)
    ensures
        metadata_event(m, event) matches Ok((after, _)) ==> extends(m, after) && same_lines(m, after),
{
    match event {
        XmlEvent::Start(tag) => {
            lemma_metadata_start_extends(m, tag);
        },
        XmlEvent::Empty(tag) => {
            lemma_tags_extend(m, tag);
        },
        XmlEvent::Text(text) => {},
        XmlEvent::GeneralRef(name) => {
            let after = metadata_reference(m, name@);
            assert(after.warnings.subrange(0, m.warnings.len() as int) =~= m.warnings);
        },
        XmlEvent::End(name) => {
            lemma_metadata_end_extends(m, name@);
        },
        _ => {},
    }
}

/// Lines and warnings stay in the order in which they come: a step adds at
/// most one line, after the lines emitted so far, and adds warnings after
/// the warnings raised so far.
pub proof fn lemma_step_extends(m: ParserModel, event: XmlEvent, has_timed_span_tags: bool)
    ensures
        step(m, event, has_timed_span_tags) matches Ok((after, _)) ==> extends(m, after),
{
    reveal(step);
    lemma_p_event_extends(m, event);
    lemma_metadata_event_extends(m, event);
    lemma_global_event_extends(m, event, has_timed_span_tags);
}

/// Only a start tag makes a step ask for the text inside an element.
pub proof fn lemma_asks_at_start(m: ParserModel, event: XmlEvent, has_timed_span_tags: bool)
    ensures
        step(m, event, has_timed_span_tags) matches Ok((_, Some(_))) ==> event is Start,
{
    reveal(step);
}

/// The agent that a paragraph tag names: the value of `ttm:agent`, or of
/// `agent` where the tag has no `ttm:agent`; `None` where it has neither.
pub open spec fn agent_of_tag(tag: XmlTag) -> Result<Option<Seq<char>>, Failure> {
    match (attr_raw(tag, "ttm:agent"@), attr_raw(tag, "agent"@)) {
        (Ok(named), Ok(alias)) => optional_text(or_else(named, alias)),
        (Err(f), _) => Err(f),
        (_, Err(f)) => Err(f),
    }
}

/// The paragraph that a tag opens has the agent that the tag names.
pub proof fn lemma_paragraph_start_agent(m: ParserModel, tag: XmlTag)
    ensures
        paragraph_start(m, tag) matches Ok(after) ==> after.body.in_p && (after.body.paragraph matches Some(p)
            && agent_of_tag(tag) == Ok::<Option<Seq<char>>, Failure>(p.agent)),
{
}

/// The end of a paragraph emits at most one line, and the agent of that
/// line is the agent of the paragraph, or `v1` where the paragraph has none.
pub proof fn lemma_paragraph_end_agent(m: ParserModel)
    ensures
        paragraph_end(m).lines.len() > m.lines.len() ==> (m.body.paragraph matches Some(p) && paragraph_end(
            m,
        ).lines.last().agent == agent_or_default(p.agent)),
{
}

/// While a paragraph is open, no event changes its agent, and no event but
/// the end of the paragraph emits a line.
pub proof fn lemma_p_event_agent(m: ParserModel, event: XmlEvent)
    requires
        m.body.paragraph is Some,
    ensures
        p_event(m, event) matches Ok(after) ==> {
            &&& after.body.paragraph matches Some(q) ==> q.agent == m.body.paragraph->0.agent
            &&& after.lines.len() > m.lines.len() ==> after == paragraph_end(m)
        },
{
    match p_event(m, event) {
        Ok(after) => {
            match event {
                XmlEvent::End(name) => {
                    lemma_span_end_agent(m);
                },
                XmlEvent::Start(tag) => {
                    match span_of_tag(tag) {
                        Ok(ctx) => {
                            assert(open_span(m, ctx).lines == m.lines);
                        },
                        Err(_) => {},
                    }
                },
                _ => {},
            }
        },
        Err(_) => {},
    }
}

/// The state `after` has the lines, the open paragraph's agent and the
/// place inside or outside a paragraph of `m`, and its paragraph is open.
pub open spec fn paragraph_kept(m: ParserModel, after: ParserModel) -> bool {
    &&& after.lines == m.lines
    &&& after.body.in_p == m.body.in_p
    &&& after.body.paragraph is Some
    &&& after.body.paragraph->0.agent == m.body.paragraph->0.agent
}

/// The end of a generic span keeps the paragraph open, with its agent.
proof fn lemma_generic_span_end_kept(m: ParserModel, ctx: SpanModel, text: Seq<char>)
    requires
        m.body.paragraph is Some,
    ensures
        generic_span_end(m, ctx, text) matches Ok(after) ==> paragraph_kept(m, after),
{
}

/// The end of a translation or romanization span keeps the paragraph open,
/// with its agent.
proof fn lemma_auxiliary_span_end_kept(m: ParserModel, ctx: SpanModel, text: Seq<char>)
    requires
        m.body.paragraph is Some,
    ensures
        auxiliary_span_end(m, ctx, text) matches Ok(after) ==> paragraph_kept(m, after),
{
}

/// The end of a background container keeps the paragraph open, with its agent.
proof fn lemma_background_span_end_kept(m: ParserModel, ctx: SpanModel, text: Seq<char>)
    requires
        m.body.paragraph is Some,
    ensures
        background_span_end(m, ctx, text) matches Ok(after) ==> paragraph_kept(m, after),
{
}

/// The end of a span keeps the paragraph open, with its agent, and emits no
/// line.
proof fn lemma_span_end_agent(m: ParserModel)
    requires
        m.body.paragraph is Some,
    ensures
        span_end(m) matches Ok(after) ==> paragraph_kept(m, after),
{
    if m.body.span_stack.len() > 0 {
        let ctx = m.body.span_stack.last();
        let m1 = with_last_syllable(m, LastSyllableInfo::NoSyllable);
        let m2 = ParserModel {
            text_buffer: Seq::empty(),
            body: BodyModel { span_stack: m.body.span_stack.drop_last(), ..m1.body },
            ..m1
        };
        assert(paragraph_kept(m, m2));
        lemma_generic_span_end_kept(m2, ctx, m.text_buffer);
        lemma_auxiliary_span_end_kept(m2, ctx, m.text_buffer);
        lemma_background_span_end_kept(m2, ctx, m.text_buffer);
    }
}

/// The step from `m` to `after` on `event` honours the agents: a line is
/// emitted only from an open paragraph, with the agent of the paragraph or
/// `v1` where it has none; the agent of a paragraph that stays open stays;
/// and a paragraph that opens has the agent that its tag names.
pub open spec fn agents_honoured(m: ParserModel, event: XmlEvent, after: ParserModel) -> bool {
    &&& after.body.in_p ==> after.body.paragraph is Some
    &&& after.lines.len() > m.lines.len() ==> m.body.in_p && after.lines.last().agent == agent_or_default(
        m.body.paragraph->0.agent,
    )
    &&& m.body.in_p && after.body.in_p ==> after.body.paragraph->0.agent == m.body.paragraph->0.agent
    &&& !m.body.in_p && after.body.in_p ==> (event matches XmlEvent::Start(tag) && agent_of_tag(tag) == Ok::<
        Option<Seq<char>>,
        Failure,
    >(after.body.paragraph->0.agent))
}

/// An event inside a paragraph honours the agents.
proof fn lemma_p_event_agents(m: ParserModel, event: XmlEvent)
    requires
        m.body.in_p,
        m.body.paragraph is Some,
    ensures
        p_event(m, event) matches Ok(after) ==> agents_honoured(m, event, after),
{
    lemma_p_event_agent(m, event);
    lemma_paragraph_end_agent(m);
    match p_event(m, event) {
        Ok(after) => {
            lemma_p_event_keeps_open(m, event);
        },
        Err(_) => {},
    }
}

/// An event inside a paragraph leaves the paragraph open, or is its end.
proof fn lemma_p_event_keeps_open(m: ParserModel, event: XmlEvent)
    requires
        m.body.in_p,
        m.body.paragraph is Some,
    ensures
        p_event(m, event) matches Ok(after) ==> (after.body.in_p ==> after.body.paragraph is Some),
{
    match event {
        XmlEvent::End(name) => {
            lemma_span_end_agent(m);
        },
        _ => {},
    }
}

/// An event inside the metadata honours the agents.
proof fn lemma_metadata_event_agents(m: ParserModel, event: XmlEvent)
    requires
        !m.body.in_p,
    ensures
        metadata_event(m, event) matches Ok((after, _)) ==> agents_honoured(m, event, after),
{
    lemma_metadata_event_extends(m, event);
    match metadata_event(m, event) {
        Ok((after, _)) => {
            lemma_metadata_event_body(m, event);
        },
        Err(_) => {},
    }
}

/// An event inside the metadata leaves the body as it is.
proof fn lemma_metadata_event_body(m: ParserModel, event: XmlEvent)
    ensures
        metadata_event(m, event) matches Ok((after, _)) ==> after.body == m.body,
{
    match event {
        XmlEvent::Start(tag) => {
            match start_rule(m.metadata, tag.name@) {
                StartRule::Plain(kind) => {
                    assert(plain_start(m, kind).body == m.body);
                },
                _ => {},
            }
        },
        XmlEvent::End(name) => {
            match end_rule(m.metadata, name@) {
                EndRule::Plain(kind) => {
                    assert(plain_end(m, kind).body == m.body);
                },
                _ => {},
            }
        },
        _ => {},
    }
}

/// An event outside the metadata and outside any paragraph honours the agents.
proof fn lemma_global_event_agents(m: ParserModel, event: XmlEvent, has_timed_span_tags: bool)
    requires
        !m.body.in_p,
    ensures
        global_event(m, event, has_timed_span_tags) matches Ok(after) ==> agents_honoured(m, event, after),
{
    lemma_global_event_extends(m, event, has_timed_span_tags);
    match event {
        XmlEvent::Start(tag) => {
            lemma_paragraph_start_agent(m, tag);
        },
        _ => {},
    }
}

/// Where the agent of a line comes from.
///
/// A step emits a line only at the end of a paragraph, and the agent of the
/// line is that of the paragraph, or `v1` where the paragraph has none. A
/// step that opens a paragraph gives it the agent that its tag names. While
/// the paragraph is open, no step changes its agent.
pub proof fn lemma_step_agent(m: ParserModel, event: XmlEvent, has_timed_span_tags: bool)
    requires
        m.body.in_p ==> m.body.paragraph is Some,
    ensures
        step(m, event, has_timed_span_tags) matches Ok((after, _)) ==> agents_honoured(m, event, after),
{
    reveal(step);
    if m.body.in_p {
        lemma_p_event_agents(m, event);
    } else if m.in_metadata_section {
        lemma_metadata_event_agents(m, event);
    } else {
        lemma_global_event_agents(m, event, has_timed_span_tags);
    }
}

} // verus!
