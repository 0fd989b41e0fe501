use ttml_processor::error::ConvertError;
use ttml_processor::parser::body::{handle_generic_span_end, make_span_syllable};
use ttml_processor::parser::driver::finish;
use ttml_processor::parser::events::handle_event;
use ttml_processor::parser::metadata::record_translation;
use ttml_processor::parser::state::{CurrentPElementData, SpanContext, SpanRole, TtmlParserState};
use ttml_processor::types::DefaultLanguageOptions;
use ttml_processor::xml::{XmlEvent, XmlTag};

fn start(name: &str, attributes: &str) -> XmlEvent {
    XmlEvent::Start(XmlTag { name: name.to_string(), content: format!("{name}{attributes}") })
}

fn end(name: &str) -> XmlEvent {
    XmlEvent::End(name.to_string())
}

fn text(t: &str) -> XmlEvent {
    XmlEvent::Text(t.to_string())
}

fn fresh() -> TtmlParserState {
    TtmlParserState::new(&DefaultLanguageOptions::default())
}

fn feed(state: &mut TtmlParserState, events: &[XmlEvent], has_timed_span_tags: bool) {
    for e in events {
        assert_eq!(handle_event(e, state, has_timed_span_tags).unwrap(), None);
    }
}

#[test]
fn events_given_by_hand_build_a_line() {
    let mut state = fresh();
    feed(
        &mut state,
        &[
            start("tt", ""),
            start("body", ""),
            start("div", r#" itunes:song-part="Chorus""#),
            start("p", r#" begin="1s" end="2s" agent="v2""#),
            start("span", r#" begin="1s" end="1.5s""#),
            text("Hey"),
            end("span"),
            text(" "),
            start("span", r#" begin="1.5s" end="2s""#),
            text("you "),
            end("span"),
            end("p"),
            end("div"),
            end("body"),
            end("tt"),
        ],
        true,
    );
    let data = finish(state, "doc");
    assert_eq!(data.raw_ttml_from_input.as_deref(), Some("doc"));
    assert!(!data.is_line_timed_source);
    assert_eq!(data.lines.len(), 1);
    let line = &data.lines[0];
    assert_eq!(line.agent.as_deref(), Some("v2"));
    assert_eq!(line.song_part.as_deref(), Some("Chorus"));
    assert_eq!(line.line_text.as_deref(), Some("Hey you"));
    assert!(line.main_syllables[0].ends_with_space);
    assert!(!line.main_syllables[1].ends_with_space);
    assert_eq!(line.main_syllables[1].text, "you");
}

#[test]
fn keyed_translation_is_asked_for_and_stored() {
    let mut state = fresh();
    feed(
        &mut state,
        &[
            start("tt", r#" itunes:timing="line""#),
            start("metadata", ""),
            start("iTunesMetadata", ""),
            start("translations", ""),
            start("translation", r#" xml:lang="de""#),
        ],
        false,
    );
    let asked = handle_event(&start("text", r#" for="K&amp;1""#), &mut state, false).unwrap();
    assert_eq!(asked.as_deref(), Some("K&1"));
    record_translation(&mut state, asked.unwrap(), "Hallo".to_string());
    let asked = handle_event(&start("text", r#" for="K2""#), &mut state, false).unwrap();
    record_translation(&mut state, asked.unwrap(), String::new());
    let asked = handle_event(&start("text", r#" for="K&amp;1""#), &mut state, false).unwrap();
    record_translation(&mut state, asked.unwrap(), "Servus".to_string());
    assert_eq!(state.metadata_state.translation_map.len(), 1);
    feed(
        &mut state,
        &[
            end("translation"),
            end("translations"),
            end("iTunesMetadata"),
            end("metadata"),
            start("body", ""),
            start("p", r#" begin="0s" end="1s" itunes:key="K&amp;1""#),
            text("Hello"),
            end("p"),
            start("p", r#" begin="1s" end="2s" itunes:key="K2""#),
            text("World"),
            end("p"),
        ],
        false,
    );
    let data = finish(state, "");
    assert_eq!(data.lines[0].translations.len(), 1);
    assert_eq!(data.lines[0].translations[0].text, "Servus");
    assert_eq!(data.lines[0].translations[0].lang.as_deref(), Some("de"));
    assert!(data.lines[1].translations.is_empty());
}

#[test]
fn root_without_timing_and_without_timed_spans_falls_back() {
    let mut state = fresh();
    feed(&mut state, &[start("tt", r#" xml:lang="en""#)], false);
    assert!(state.is_line_timing_mode);
    assert!(state.detected_line_mode);
    assert_eq!(state.warnings.len(), 1);
    assert_eq!(state.default_main_lang.as_deref(), Some("en"));

    let mut state = fresh();
    feed(&mut state, &[start("tt", r#" itunes:timing="word""#)], false);
    assert!(state.is_line_timing_mode);
    assert!(state.detected_line_mode);
    assert_eq!(state.warnings.len(), 1);

    let mut state = fresh();
    feed(&mut state, &[start("tt", r#" itunes:timing="word""#)], true);
    assert!(!state.is_line_timing_mode);
    assert!(state.warnings.is_empty());

    let mut state = fresh();
    feed(&mut state, &[start("tt", r#" itunes:timing="line""#)], true);
    assert!(state.is_line_timing_mode);
    assert!(!state.detected_line_mode);
    assert!(state.warnings.is_empty());

    let mut state = TtmlParserState::new(&DefaultLanguageOptions {
        main: Some("ko".to_string()),
        translation: None,
        romanization: None,
    });
    feed(&mut state, &[start("tt", r#" xml:lang="en""#)], true);
    assert!(!state.is_line_timing_mode);
    assert_eq!(state.default_main_lang.as_deref(), Some("ko"));
}

#[test]
fn first_failure_of_an_attribute_is_the_result() {
    let mut state = fresh();
    feed(&mut state, &[start("tt", ""), start("body", "")], true);
    let r = handle_event(&start("p", r#" begin="nope" end=broken"#), &mut state, true);
    assert!(matches!(r, Err(ConvertError::InvalidTime(_))));

    let mut state = fresh();
    feed(&mut state, &[start("tt", ""), start("body", "")], true);
    let r = handle_event(&start("p", r#" end=broken begin="nope""#), &mut state, true);
    assert!(matches!(r, Err(ConvertError::Attribute(_))));

    let mut state = fresh();
    feed(&mut state, &[start("tt", ""), start("body", "")], true);
    let r = handle_event(&start("p", r#" begin="1s" itunes:key="&#xZZ;""#), &mut state, true);
    assert!(matches!(r, Err(ConvertError::Xml { position: None, .. })));
}

#[test]
fn span_end_outside_a_paragraph_is_an_internal_error() {
    let mut state = fresh();
    let ctx = SpanContext { role: SpanRole::Generic, lang: None, scheme: None, start_ms: Some(0), end_ms: Some(1) };
    let r = handle_generic_span_end(&mut state, &ctx, "x");
    assert!(matches!(r, Err(ConvertError::Internal(_))));
}

#[test]
fn timed_span_of_whitespace_makes_a_space_syllable() {
    let mut state = fresh();
    state.body_state.current_p_element_data = Some(CurrentPElementData {
        start_ms: 0,
        end_ms: 10,
        agent: None,
        song_part: None,
        itunes_key: None,
        line_text_accumulator: String::new(),
        syllables_accumulator: vec![],
        translations_accumulator: vec![],
        romanizations_accumulator: vec![],
        background_section_accumulator: None,
    });
    let ctx = SpanContext { role: SpanRole::Generic, lang: None, scheme: None, start_ms: Some(3), end_ms: Some(7) };
    handle_generic_span_end(&mut state, &ctx, " \t").unwrap();
    handle_generic_span_end(&mut state, &ctx, "").unwrap();
    let p = state.body_state.current_p_element_data.as_ref().unwrap();
    assert_eq!(p.syllables_accumulator.len(), 2);
    for s in &p.syllables_accumulator {
        assert_eq!((s.text.as_str(), s.start_ms, s.end_ms, s.ends_with_space), (" ", 3, 7, false));
    }
}

#[test]
fn span_syllable_text_and_times() {
    let s = make_span_syllable("  two   words \n", 5, 9, false);
    assert_eq!((s.text.as_str(), s.start_ms, s.end_ms, s.duration_ms, s.ends_with_space), ("two words", 5, 9, Some(4), true));
    let s = make_span_syllable("(（ bg ））", 9, 5, true);
    assert_eq!((s.text.as_str(), s.start_ms, s.end_ms, s.duration_ms, s.ends_with_space), ("bg", 9, 9, Some(0), false));
}

#[test]
fn events_outside_the_body_are_passed_over() {
    let mut state = fresh();
    feed(
        &mut state,
        &[
            XmlEvent::Other,
            start("tt", r#" itunes:timing="word""#),
            start("p", r#" begin="bad""#),
            text("stray"),
            XmlEvent::GeneralRef("amp".to_string()),
            end("p"),
            start("div", r#" itunes:song-part="x""#),
        ],
        true,
    );
    assert!(!state.body_state.in_p);
    assert!(!state.body_state.in_div);
    let data = finish(state, "");
    assert!(data.lines.is_empty());
    assert!(data.warnings.is_empty());
}
