//! The end of a paragraph: from what was gathered to a lyric line.

use crate::parser::body::{later, or_else, set_last_space, span_length, with_last_space};
use crate::parser::state::{
    CurrentPElementData, KeyedTranslation, KeyedTranslationModel, ParagraphModel, ParserModel, TtmlParserState,
};
use crate::parser::support::{
    concat3, find_translation, push_decimal, push_model, push_span_text, span_text, translation_index,
    decimal_digits,
};
use crate::text::{
    is_blank, normalize_text_whitespace, normalize_whitespace, str_eq, trim, trim_end, trim_end_text,
};
use crate::types::{
    last_closes, syllables_ordered, BackgroundModel, LineModel, LyricLine, LyricSyllable, SyllableModel,
    TranslationEntry, TranslationModel,
};
use vstd::prelude::*;

verus! {

/// The text that the syllables spell: their texts in order, each followed by
/// a space where the syllable ends with one.
pub open spec fn assemble(syllables: Seq<SyllableModel>) -> Seq<char>
    decreases syllables.len(),
{
    if syllables.len() == 0 {
        Seq::<char>::empty()
    } else {
        let last = syllables.last();
        let gap = if last.ends_with_space {
            seq![' ']
        } else {
            Seq::<char>::empty()
        };
        assemble(syllables.drop_last()) + last.text + gap
    }
}

/// Spells the syllables out.
pub fn assemble_text(syllables: &Vec<LyricSyllable>) -> (r: String)
    ensures
        r@ == assemble(syllables.deep_view()),
{
    let ghost all = syllables.deep_view();
    let mut out = String::new();
    let mut i: usize = 0;
    while i < syllables.len()
        invariant
            i <= syllables.len(),
            all == syllables.deep_view(),
            out@ == assemble(all.subrange(0, i as int)),
        decreases syllables.len() - i,
    {
        proof {
            let next = all.subrange(0, i + 1);
            assert(next.drop_last() == all.subrange(0, i as int));
            assert(next.last() == all[i as int]);
        }
        out.append(syllables[i].text.as_str());
        if syllables[i].ends_with_space {
            out.push(' ');
            assert(out@ =~= assemble(all.subrange(0, i as int)) + all[i as int].text + seq![' ']);
        } else {
            assert(out@ =~= assemble(all.subrange(0, i as int)) + all[i as int].text + Seq::<char>::empty());
        }
        i += 1;
    }
    assert(all.subrange(0, syllables.len() as int) == all);
    out
}

/// A translation with the given text is among the entries.
pub open spec fn has_translation_text(entries: Seq<TranslationModel>, text: Seq<char>) -> bool {
    exists|i: int| 0 <= i < entries.len() && (#[trigger] entries[i]).text == text
}

/// The paragraph with the translation that the metadata holds for its
/// `itunes:key`, unless the paragraph has a translation of the same text.
pub open spec fn attach_keyed_translation(p: ParagraphModel, map: Seq<KeyedTranslationModel>) -> ParagraphModel {
    match p.itunes_key {
        None => p,
        Some(key) => match find_translation(map, key) {
            None => p,
            Some(found) => if has_translation_text(p.translations, found.text) {
                p
            } else {
                ParagraphModel {
                    translations: p.translations.push(TranslationModel { text: found.text, lang: found.lang }),
                    ..p
                }
            },
        },
    }
}

/// Tells whether a translation with the given text is among the entries.
pub fn contains_translation_text(entries: &Vec<TranslationEntry>, text: &str) -> (r: bool)
    ensures
        r == has_translation_text(entries.deep_view(), text@),
{
    let mut i: usize = 0;
    while i < entries.len()
        invariant
            i <= entries.len(),
            forall|j: int| 0 <= j < i ==> (#[trigger] entries.deep_view()[j]).text != text@,
        decreases entries.len() - i,
    {
        if str_eq(entries[i].text.as_str(), text) {
            assert(entries.deep_view()[i as int].text == text@);
            return true;
        }
        i += 1;
    }
    false
}

/// Attaches the translation that the metadata holds for the paragraph's key.
pub fn attach_translation(p: &mut CurrentPElementData, map: &Vec<KeyedTranslation>)
    ensures
        final(p).deep_view() == attach_keyed_translation(old(p).deep_view(), map.deep_view()),
{
    let found: Option<usize> = match &p.itunes_key {
        None => None,
        Some(key) => {
            let k = translation_index(map, key.as_str());
            if k < map.len() {
                Some(k)
            } else {
                None
            }
        },
    };
    match found {
        None => {},
        Some(k) => {
            if !contains_translation_text(&p.translations_accumulator, map[k].text.as_str()) {
                let entry = TranslationEntry { text: map[k].text.clone(), lang: map[k].lang.clone() };
                push_model(&mut p.translations_accumulator, entry);
            }
        },
    }
}

/// The warning for a line-timed paragraph whose text comes from its syllables.
pub open spec fn text_from_syllables_warning(start: u64, end: u64) -> Seq<char> {
    "the text of the line-timed paragraph ("@ + span_text(start, end) + ") comes from its syllables"@
}

/// The warning for the syllable timings dropped in a line-timed paragraph.
pub open spec fn dropped_timings_warning(start: u64, end: u64, count: nat) -> Seq<char> {
    "in the line-timed paragraph ("@ + span_text(start, end) + ") the timings of "@ + decimal_digits(count)
        + " syllables are ignored"@
}

/// The warning for direct text of a paragraph that becomes a syllable with
/// an end before its start.
pub open spec fn inverted_paragraph_warning(text: Seq<char>, start: u64, end: u64) -> Seq<char> {
    "the syllable for the text '"@ + text + "' of a paragraph ends before it starts ("@ + span_text(
        start,
        end,
    ) + ")"@
}

/// The warning for text outside any span in a word-timed paragraph.
pub open spec fn uncovered_text_warning(text: Seq<char>, start: u64, end: u64) -> Seq<char> {
    "the word-timed paragraph ("@ + span_text(start, end) + ") holds text outside any span: '"@ + text
        + "' is ignored"@
}

/// The text of a line-timed paragraph before normalization uses the
/// syllables: the gathered text is blank and there are syllables.
pub open spec fn text_comes_from_syllables(gathered: Seq<char>, syllables: Seq<SyllableModel>) -> bool {
    trim(gathered).len() == 0 && syllables.len() > 0
}

/// The text of a line of a line-timed document: the gathered text, or what
/// the syllables spell where that is blank, normalized.
pub open spec fn line_mode_text(gathered: Seq<char>, syllables: Seq<SyllableModel>) -> Seq<char> {
    if text_comes_from_syllables(gathered, syllables) {
        normalize_whitespace(assemble(syllables))
    } else {
        normalize_whitespace(gathered)
    }
}

/// The warnings that finishing a line-timed paragraph raises.
pub open spec fn line_mode_warnings(start: u64, end: u64, gathered: Seq<char>, syllables: Seq<SyllableModel>) -> Seq<
    Seq<char>,
> {
    let first = if text_comes_from_syllables(gathered, syllables) {
        seq![text_from_syllables_warning(start, end)]
    } else {
        Seq::<Seq<char>>::empty()
    };
    if syllables.len() > 0 {
        first.push(dropped_timings_warning(start, end, syllables.len()))
    } else {
        first
    }
}

/// Finishes a paragraph of a line-timed document: sets the text of the line.
pub fn finalize_p_for_line_mode(
    final_line: &mut LyricLine,
    line_text_accumulator: &str,
    syllables_accumulator: &Vec<LyricSyllable>,
    warnings: &mut Vec<String>,
)
    ensures
        final(final_line).deep_view() == (LineModel {
            line_text: Some(line_mode_text(line_text_accumulator@, syllables_accumulator.deep_view())),
            ..old(final_line).deep_view()
        }),
        final(warnings).deep_view() == old(warnings).deep_view() + line_mode_warnings(
            old(final_line).start_ms,
            old(final_line).end_ms,
            line_text_accumulator@,
            syllables_accumulator.deep_view(),
        ),
{
    let from_syllables = is_blank(line_text_accumulator) && syllables_accumulator.len() > 0;
    let content = if from_syllables {
        let mut message = String::from_str("the text of the line-timed paragraph (");
        push_span_text(&mut message, final_line.start_ms, final_line.end_ms);
        message.append(") comes from its syllables");
        push_model(warnings, message);
        assemble_text(syllables_accumulator)
    } else {
        String::from_str(line_text_accumulator)
    };
    final_line.line_text = Some(normalize_text_whitespace(content.as_str()));
    if syllables_accumulator.len() > 0 {
        let mut message = String::from_str("in the line-timed paragraph (");
        push_span_text(&mut message, final_line.start_ms, final_line.end_ms);
        message.append(") the timings of ");
        push_decimal(&mut message, syllables_accumulator.len() as u64);
        message.append(" syllables are ignored");
        push_model(warnings, message);
    }
    assert(warnings.deep_view() =~= old(warnings).deep_view() + line_mode_warnings(
        old(final_line).start_ms,
        old(final_line).end_ms,
        line_text_accumulator@,
        syllables_accumulator.deep_view(),
    ));
}

/// The syllables of a line of a word-timed document: those gathered, or one
/// syllable over the whole paragraph for text outside any span where none
/// was gathered.
pub open spec fn word_mode_syllables(start: u64, end: u64, gathered: Seq<char>, syllables: Seq<SyllableModel>) -> Seq<
    SyllableModel,
> {
    let uncovered = normalize_whitespace(gathered);
    if uncovered.len() > 0 && syllables.len() == 0 {
        seq![
            SyllableModel {
                text: uncovered,
                start_ms: start,
                end_ms: later(end, start),
                duration_ms: Some(span_length(start, end)),
                ends_with_space: false,
            },
        ]
    } else {
        syllables
    }
}

/// The warnings that finishing a word-timed paragraph raises.
pub open spec fn word_mode_warnings(start: u64, end: u64, gathered: Seq<char>, syllables: Seq<SyllableModel>) -> Seq<
    Seq<char>,
> {
    let uncovered = normalize_whitespace(gathered);
    if uncovered.len() == 0 {
        Seq::<Seq<char>>::empty()
    } else if syllables.len() == 0 {
        if start > end {
            seq![inverted_paragraph_warning(uncovered, start, end)]
        } else {
            Seq::<Seq<char>>::empty()
        }
    } else {
        seq![uncovered_text_warning(uncovered, start, end)]
    }
}

/// The text of a line of a word-timed document: what its syllables spell,
/// without trailing whitespace; none where it has no syllables.
pub open spec fn word_mode_text(syllables: Seq<SyllableModel>) -> Option<Seq<char>> {
    if syllables.len() > 0 {
        Some(trim_end(assemble(syllables)))
    } else {
        None
    }
}

/// Finishes a paragraph of a word-timed document: sets the syllables of the
/// line, and its text where it has none yet.
pub fn finalize_p_for_word_mode(
    final_line: &mut LyricLine,
    syllables_accumulator: Vec<LyricSyllable>,
    line_text_accumulator: &str,
    warnings: &mut Vec<String>,
)
    ensures
        final(final_line).deep_view() == ({
            let syllables = word_mode_syllables(
                old(final_line).start_ms,
                old(final_line).end_ms,
                line_text_accumulator@,
                syllables_accumulator.deep_view(),
            );
            LineModel {
                main_syllables: syllables,
                line_text: or_else(old(final_line).deep_view().line_text, word_mode_text(syllables)),
                ..old(final_line).deep_view()
            }
        }),
        final(warnings).deep_view() == old(warnings).deep_view() + word_mode_warnings(
            old(final_line).start_ms,
            old(final_line).end_ms,
            line_text_accumulator@,
            syllables_accumulator.deep_view(),
        ),
{
    let ghost gathered = syllables_accumulator.deep_view();
    let ghost start = final_line.start_ms;
    let ghost end = final_line.end_ms;
    final_line.main_syllables = syllables_accumulator;
    let uncovered = normalize_text_whitespace(line_text_accumulator);
    if !uncovered.as_str().is_empty() {
        if final_line.main_syllables.len() == 0 {
            let syl_start = final_line.start_ms;
            let syl_end = final_line.end_ms;
            if syl_start > syl_end {
                let mut message = concat3(
                    "the syllable for the text '",
                    uncovered.as_str(),
                    "' of a paragraph ends before it starts (",
                );
                push_span_text(&mut message, syl_start, syl_end);
                message.append(")");
                push_model(warnings, message);
            }
            let syllable = LyricSyllable {
                text: uncovered,
                start_ms: syl_start,
                end_ms: if syl_end >= syl_start { syl_end } else { syl_start },
                duration_ms: Some(if syl_end >= syl_start { syl_end - syl_start } else { 0 }),
                ends_with_space: false,
            };
            push_model(&mut final_line.main_syllables, syllable);
            assert(final_line.main_syllables.deep_view() =~= word_mode_syllables(
                start,
                end,
                line_text_accumulator@,
                gathered,
            ));
        } else {
            let mut message = String::from_str("the word-timed paragraph (");
            push_span_text(&mut message, final_line.start_ms, final_line.end_ms);
            message.append(") holds text outside any span: '");
            message.append(uncovered.as_str());
            message.append("' is ignored");
            push_model(warnings, message);
        }
    }
    if final_line.line_text.is_none() && final_line.main_syllables.len() > 0 {
        let assembled = assemble_text(&final_line.main_syllables);
        final_line.line_text = Some(trim_end_text(assembled.as_str()));
    }
    assert(warnings.deep_view() =~= old(warnings).deep_view() + word_mode_warnings(
        start,
        end,
        line_text_accumulator@,
        gathered,
    ));
}

/// The agent of a line: that of its paragraph, or `v1`.
pub open spec fn agent_or_default(agent: Option<Seq<char>>) -> Option<Seq<char>> {
    match agent {
        Some(a) => Some(a),
        None => Some("v1"@),
    }
}

/// The background section of a line: that of the paragraph, unless it holds
/// nothing at all.
pub open spec fn kept_background(background: Option<BackgroundModel>) -> Option<BackgroundModel> {
    match background {
        Some(bg) => if bg.syllables.len() > 0 || bg.translations.len() > 0 || bg.romanizations.len() > 0 {
            Some(BackgroundModel { syllables: with_last_space(bg.syllables, false), ..bg })
        } else {
            None
        },
        None => None,
    }
}

/// The syllables of a line as emitted: the last one carries no trailing
/// space, and a line without syllables, with a text and a positive duration
/// gets one syllable over the whole line.
pub open spec fn emitted_syllables(
    start: u64,
    end: u64,
    line_text: Option<Seq<char>>,
    syllables: Seq<SyllableModel>,
) -> Seq<SyllableModel> {
    if syllables.len() == 0 && line_text is Some && line_text->0.len() > 0 && end > start {
        seq![
            SyllableModel {
                text: line_text->0,
                start_ms: start,
                end_ms: end,
                duration_ms: Some((end - start) as u64),
                ends_with_space: false,
            },
        ]
    } else {
        with_last_space(syllables, false)
    }
}

/// The line that a paragraph becomes.
pub open spec fn paragraph_line(p: ParagraphModel, line_mode: bool) -> LineModel {
    let syllables = if line_mode {
        Seq::<SyllableModel>::empty()
    } else {
        word_mode_syllables(p.start_ms, p.end_ms, p.line_text, p.syllables)
    };
    let line_text = if line_mode {
        Some(line_mode_text(p.line_text, p.syllables))
    } else {
        word_mode_text(syllables)
    };
    LineModel {
        start_ms: p.start_ms,
        end_ms: p.end_ms,
        line_text: line_text,
        main_syllables: emitted_syllables(p.start_ms, p.end_ms, line_text, syllables),
        translations: p.translations,
        romanizations: p.romanizations,
        agent: agent_or_default(p.agent),
        background_section: kept_background(p.background),
        song_part: p.song_part,
        itunes_key: p.itunes_key,
    }
}

/// The warnings that finishing a paragraph raises.
pub open spec fn paragraph_warnings(p: ParagraphModel, line_mode: bool) -> Seq<Seq<char>> {
    if line_mode {
        line_mode_warnings(p.start_ms, p.end_ms, p.line_text, p.syllables)
    } else {
        word_mode_warnings(p.start_ms, p.end_ms, p.line_text, p.syllables)
    }
}

/// A line that is not emitted: it has no syllable, no text, no translation,
/// no romanization, no background section, and no positive duration.
pub open spec fn line_is_empty(line: LineModel) -> bool {
    &&& line.main_syllables.len() == 0
    &&& (line.line_text is None || line.line_text->0.len() == 0)
    &&& line.translations.len() == 0
    &&& line.romanizations.len() == 0
    &&& line.background_section is None
    &&& line.end_ms <= line.start_ms
}

/// The state after a paragraph was finished: its warnings are recorded, and
/// its line is emitted unless it is empty.
pub open spec fn finalize_paragraph(m: ParserModel, p: ParagraphModel) -> ParserModel {
    let line = paragraph_line(p, m.is_line_timing_mode);
    ParserModel {
        warnings: m.warnings + paragraph_warnings(p, m.is_line_timing_mode),
        lines: if line_is_empty(line) {
            m.lines
        } else {
            m.lines.push(line)
        },
        ..m
    }
}

/// The line of a paragraph whose syllables are not inverted is well-formed.
pub proof fn lemma_paragraph_line_well_formed(p: ParagraphModel, line_mode: bool)
    requires
        syllables_ordered(p.syllables),
        p.background matches Some(bg) ==> syllables_ordered(bg.syllables),
    ensures
        paragraph_line(p, line_mode).well_formed(),
{
    let line = paragraph_line(p, line_mode);
    let main = line.main_syllables;
    assert(syllables_ordered(main) && last_closes(main)) by {
        assert forall|i: int| 0 <= i < main.len() implies (#[trigger] main[i]).end_ms >= main[i].start_ms by {
            if !line_mode && p.syllables.len() > 0 {
                assert(main[i].end_ms == p.syllables[i].end_ms);
                assert(main[i].start_ms == p.syllables[i].start_ms);
            }
        }
    }
    match line.background_section {
        Some(bg) => {
            let before = p.background->0.syllables;
            assert forall|i: int| 0 <= i < bg.syllables.len() implies (#[trigger] bg.syllables[i]).end_ms
                >= bg.syllables[i].start_ms by {
                assert(bg.syllables[i].end_ms == before[i].end_ms);
                assert(bg.syllables[i].start_ms == before[i].start_ms);
            }
        },
        None => {},
    }
}

/// Finishes a paragraph: builds its line and emits it unless it is empty.
pub fn finalize_p_element(p_data: CurrentPElementData, state: &mut TtmlParserState)
    ensures
        final(state).deep_view() == finalize_paragraph(old(state).deep_view(), p_data.deep_view()),
{
    let ghost p = p_data.deep_view();
    let ghost m = state.deep_view();
    let CurrentPElementData {
        start_ms,
        end_ms,
        agent,
        song_part,
        itunes_key,
        line_text_accumulator,
        syllables_accumulator,
        translations_accumulator,
        romanizations_accumulator,
        background_section_accumulator,
    } = p_data;
    let agent = match agent {
        Some(a) => Some(a),
        None => Some(String::from_str("v1")),
    };
    let mut final_line = LyricLine {
        start_ms,
        end_ms,
        line_text: None,
        main_syllables: Vec::new(),
        translations: translations_accumulator,
        romanizations: romanizations_accumulator,
        agent,
        background_section: None,
        song_part,
        itunes_key,
    };
    assert(final_line.main_syllables.deep_view() =~= Seq::empty());
    if state.is_line_timing_mode {
        finalize_p_for_line_mode(
            &mut final_line,
            line_text_accumulator.as_str(),
            &syllables_accumulator,
            &mut state.warnings,
        );
    } else {
        finalize_p_for_word_mode(
            &mut final_line,
            syllables_accumulator,
            line_text_accumulator.as_str(),
            &mut state.warnings,
        );
    }
    match background_section_accumulator {
        Some(mut bg) => {
            if bg.syllables.len() > 0 || bg.translations.len() > 0 || bg.romanizations.len() > 0 {
                set_last_space(&mut bg.syllables, false);
                final_line.background_section = Some(bg);
            }
        },
        None => {},
    }
    set_last_space(&mut final_line.main_syllables, false);
    let synthesize = final_line.main_syllables.len() == 0 && final_line.end_ms > final_line.start_ms
        && match &final_line.line_text {
        Some(t) => !t.as_str().is_empty(),
        None => false,
    };
    if synthesize {
        let text = match &final_line.line_text {
            Some(t) => t.clone(),
            None => String::new(),
        };
        let syllable = LyricSyllable {
            text,
            start_ms: final_line.start_ms,
            end_ms: final_line.end_ms,
            duration_ms: Some(final_line.end_ms - final_line.start_ms),
            ends_with_space: false,
        };
        push_model(&mut final_line.main_syllables, syllable);
        assert(final_line.main_syllables.deep_view() =~= paragraph_line(p, m.is_line_timing_mode).main_syllables);
    }
    assert(final_line.main_syllables.deep_view() =~= paragraph_line(p, m.is_line_timing_mode).main_syllables);
    assert(final_line.deep_view() == paragraph_line(p, m.is_line_timing_mode));
    let empty = final_line.main_syllables.len() == 0 && final_line.translations.len() == 0
        && final_line.romanizations.len() == 0 && final_line.background_section.is_none() && final_line.end_ms
        <= final_line.start_ms && match &final_line.line_text {
        Some(t) => t.as_str().is_empty(),
        None => true,
    };
    if !empty {
        push_model(&mut state.lines, final_line);
    }
}

} // verus!
