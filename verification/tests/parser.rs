use ttml_processor::error::ConvertError;
use ttml_processor::parse_ttml;
use ttml_processor::types::{DefaultLanguageOptions, LyricFormat, ParsedSourceData};

fn parse(doc: &str) -> ParsedSourceData {
    parse_ttml(doc, &DefaultLanguageOptions::default()).unwrap()
}

fn values_of<'a>(data: &'a ParsedSourceData, key: &str) -> Vec<&'a str> {
    data.raw_metadata
        .iter()
        .filter(|e| e.key == key)
        .flat_map(|e| e.values.iter().map(|v| v.as_str()))
        .collect()
}

#[test]
fn word_timed_single_line() {
    let data = parse(
        r#"<tt><body><div><p begin="0s" end="1s"><span begin="0s" end="0.5s">Hi</span> <span begin="0.5s" end="1s">There</span></p></div></body></tt>"#,
    );
    assert!(!data.is_line_timed_source);
    assert_eq!(data.lines.len(), 1);
    let line = &data.lines[0];
    assert_eq!(line.main_syllables.len(), 2);
    let a = &line.main_syllables[0];
    assert_eq!((a.text.as_str(), a.start_ms, a.end_ms, a.ends_with_space), ("Hi", 0, 500, true));
    let b = &line.main_syllables[1];
    assert_eq!((b.text.as_str(), b.start_ms, b.end_ms, b.ends_with_space), ("There", 500, 1000, false));
    assert_eq!(line.line_text.as_deref(), Some("Hi There"));
    assert_eq!(line.agent.as_deref(), Some("v1"));
    assert_eq!((line.start_ms, line.end_ms), (0, 1000));
    assert_eq!(a.duration_ms, Some(500));
}

#[test]
fn background_section() {
    let data = parse(
        r#"<tt xmlns:ttm="http://www.w3.org/ns/ttml#metadata"><body><div><p begin="0s" end="2s"><span begin="0s" end="1s">Lead</span><span ttm:role="x-bg"><span begin="1s" end="2s">(echo)</span></span></p></div></body></tt>"#,
    );
    assert_eq!(data.lines.len(), 1);
    let line = &data.lines[0];
    assert_eq!(line.main_syllables.len(), 1);
    assert_eq!(line.main_syllables[0].text, "Lead");
    assert_eq!((line.main_syllables[0].start_ms, line.main_syllables[0].end_ms), (0, 1000));
    let bg = line.background_section.as_ref().unwrap();
    assert_eq!((bg.start_ms, bg.end_ms), (1000, 2000));
    assert_eq!(bg.syllables.len(), 1);
    assert_eq!(bg.syllables[0].text, "echo");
    assert!(!bg.syllables[0].ends_with_space);
}

#[test]
fn line_timed_fallback() {
    let data = parse(r#"<tt><body><div><p begin="0s" end="3s">Hello world</p></div></body></tt>"#);
    assert!(data.is_line_timed_source);
    assert_eq!(data.lines.len(), 1);
    let line = &data.lines[0];
    assert_eq!(line.line_text.as_deref(), Some("Hello world"));
    assert_eq!(line.main_syllables.len(), 1);
    let s = &line.main_syllables[0];
    assert_eq!((s.text.as_str(), s.start_ms, s.end_ms, s.ends_with_space), ("Hello world", 0, 3000, false));
    assert_eq!(data.warnings.len(), 1);
}

#[test]
fn translation_via_itunes_key() {
    let data = parse(concat_doc().as_str());
    assert_eq!(data.lines.len(), 1);
    let line = &data.lines[0];
    assert_eq!(line.itunes_key.as_deref(), Some("L1"));
    assert_eq!(line.translations.len(), 1);
    assert_eq!(line.translations[0].text, "你好");
    assert_eq!(line.translations[0].lang.as_deref(), Some("zh"));
}

fn concat_doc() -> String {
    let mut doc = String::new();
    doc.push_str(r#"<tt xmlns:itunes="http://music.apple.com/lyric-ttml-internal" itunes:timing="line">"#);
    doc.push_str(r#"<head><metadata><iTunesMetadata><translations><translation xml:lang="zh">"#);
    doc.push_str(r#"<text for="L1">你好</text></translation></translations></iTunesMetadata></metadata></head>"#);
    doc.push_str(r#"<body><div><p begin="0s" end="1s" itunes:key="L1">Hello</p></div></body></tt>"#);
    doc
}

#[test]
fn explicit_line_timing_takes_span_text_as_line_text() {
    let data = parse(
        r#"<tt itunes:timing="line"><body><div><p begin="1s" end="2s"><span begin="1s" end="1.5s">Hi </span><span begin="1.5s" end="2s">you</span></p></div></body></tt>"#,
    );
    assert!(data.is_line_timed_source);
    assert_eq!(data.lines[0].line_text.as_deref(), Some("Hi you"));
    assert_eq!(data.warnings.len(), 0);
}

#[test]
fn metadata_is_recorded() {
    let mut doc = String::new();
    doc.push_str(r#"<tt xmlns:ttm="http://www.w3.org/ns/ttml#metadata" xml:lang="ja"><head><metadata>"#);
    doc.push_str(r#"<meta key="musicName" value="Song &amp; Dance"/><meta key="musicName" value="Alias"/>"#);
    doc.push_str(r#"<ttm:agent type="person" xml:id="v1"><ttm:name type="full">Alice</ttm:name></ttm:agent>"#);
    doc.push_str(r#"<ttm:agent xml:id="v2"/><ttm:agent xml:id="v2"/>"#);
    doc.push_str(r#"<ttm:title>  My   Title </ttm:title>"#);
    doc.push_str(r#"<iTunesMetadata><songwriters><songwriter> Bob &amp; Co </songwriter></songwriters></iTunesMetadata>"#);
    doc.push_str(r#"</metadata></head><body></body></tt>"#);
    let data = parse(&doc);
    assert_eq!(values_of(&data, "musicName"), vec!["Song & Dance", "Alias"]);
    assert_eq!(values_of(&data, "agent-type-v1"), vec!["person"]);
    assert_eq!(values_of(&data, "agent-type-v2"), vec!["person", "person"]);
    assert_eq!(values_of(&data, "agent"), vec!["v1=Alice"]);
    assert_eq!(values_of(&data, "title"), vec!["My Title"]);
    assert_eq!(values_of(&data, "songwriters"), vec!["Bob & Co"]);
    assert_eq!(values_of(&data, "xml:lang_root"), vec!["ja"]);
    let keys: Vec<&str> = data.raw_metadata.iter().map(|e| e.key.as_str()).collect();
    let mut unique = keys.clone();
    unique.sort();
    unique.dedup();
    assert_eq!(unique.len(), keys.len());
    assert!(data.warnings.iter().any(|w| w.contains("v2")));
    assert!(data.lines.is_empty());
}

#[test]
fn fixed_fields_of_the_result() {
    let doc = r#"<tt><body></body></tt>"#;
    let data = parse(doc);
    assert_eq!(data.source_format, LyricFormat::Ttml);
    assert_eq!(data.source_filename, None);
    assert_eq!(data.raw_ttml_from_input.as_deref(), Some(doc));
    assert_eq!(data.detected_formatted_ttml_input, None);
}

#[test]
fn inverted_syllable_is_kept_with_a_warning() {
    let data = parse(
        r#"<tt><body><div><p begin="0s" end="2s"><span begin="2s" end="1s">Oops</span></p></div></body></tt>"#,
    );
    let s = &data.lines[0].main_syllables[0];
    assert_eq!((s.start_ms, s.end_ms, s.duration_ms), (2000, 2000, Some(0)));
    assert_eq!(data.warnings.len(), 1);
}

#[test]
fn empty_timed_span_becomes_a_space_syllable() {
    let data = parse(
        r#"<tt><body><div><p begin="0s" end="2s"><span begin="0s" end="1s">A</span><span begin="1s" end="1.2s"> </span><span begin="1.2s" end="2s">B</span></p></div></body></tt>"#,
    );
    let syllables = &data.lines[0].main_syllables;
    assert_eq!(syllables.len(), 3);
    assert!(syllables[0].ends_with_space);
    assert_eq!(syllables[1].text, " ");
    assert_eq!((syllables[1].start_ms, syllables[1].end_ms), (1000, 1200));
    assert!(!syllables[1].ends_with_space);
    assert_eq!(syllables[2].text, "B");
}

#[test]
fn span_without_times_is_dropped_with_a_warning() {
    let data = parse(
        r#"<tt><body><div><p begin="0s" end="2s"><span begin="0s" end="1s">A</span><span>lost</span></p></div></body></tt>"#,
    );
    assert_eq!(data.lines[0].main_syllables.len(), 1);
    assert_eq!(data.warnings.len(), 1);
    assert!(data.warnings[0].contains("lost"));
}

#[test]
fn translation_and_romanization_spans() {
    let mut doc = String::new();
    doc.push_str(r#"<tt xmlns:ttm="http://www.w3.org/ns/ttml#metadata"><body><div itunes:song-part="Verse">"#);
    doc.push_str(r#"<p begin="0s" end="1s" ttm:agent="v2"><span begin="0s" end="1s">こんにちは</span>"#);
    doc.push_str(r#"<span ttm:role="x-translation" xml:lang="en"> Hello   there </span>"#);
    doc.push_str(r#"<span ttm:role="x-roman" xml:scheme="hepburn">konnichiwa</span>"#);
    doc.push_str(r#"<span ttm:role="x-translation">  </span></p></div></body></tt>"#);
    let defaults = DefaultLanguageOptions { main: None, translation: Some("fr".into()), romanization: Some("ja-Latn".into()) };
    let data = parse_ttml(&doc, &defaults).unwrap();
    let line = &data.lines[0];
    assert_eq!(line.agent.as_deref(), Some("v2"));
    assert_eq!(line.song_part.as_deref(), Some("Verse"));
    assert_eq!(line.translations.len(), 1);
    assert_eq!(line.translations[0].text, "Hello there");
    assert_eq!(line.translations[0].lang.as_deref(), Some("en"));
    assert_eq!(line.romanizations.len(), 1);
    assert_eq!(line.romanizations[0].text, "konnichiwa");
    assert_eq!(line.romanizations[0].lang.as_deref(), Some("ja-Latn"));
    assert_eq!(line.romanizations[0].scheme.as_deref(), Some("hepburn"));
}

#[test]
fn line_break_is_ignored_with_a_warning() {
    let data = parse(
        r#"<tt><body><div><p begin="0s" end="1s"><span begin="0s" end="1s">A</span><br/></p></div></body></tt>"#,
    );
    assert_eq!(data.lines.len(), 1);
    assert_eq!(data.warnings.len(), 1);
    assert!(data.warnings[0].contains("0ms-1000ms"));
}

#[test]
fn entities_in_text_are_decoded() {
    let data = parse(
        r#"<tt><body><div><p begin="0s" end="1s"><span begin="0s" end="1s">R&amp;B &lt;3 &bogus;</span></p></div></body></tt>"#,
    );
    assert_eq!(data.lines[0].main_syllables[0].text, "R&B <3");
    assert_eq!(data.warnings.len(), 1);
    assert!(data.warnings[0].contains("bogus"));
}

#[test]
fn empty_paragraph_is_not_emitted() {
    let data = parse(r#"<tt itunes:timing="word"><body><div><p></p><p begin="1s" end="1s"> </p></div></body></tt>"#);
    assert!(data.lines.is_empty());
}

#[test]
fn paragraph_with_duration_only_is_emitted() {
    let data = parse(
        r#"<tt><body><div><p begin="1s" end="2s"></p><p begin="2s" end="3s"><span begin="2s" end="3s">x</span></p></div></body></tt>"#,
    );
    assert!(!data.is_line_timed_source);
    assert_eq!(data.lines.len(), 2);
    assert!(data.lines[0].main_syllables.is_empty());
    assert_eq!(data.lines[0].line_text, None);
}

#[test]
fn timing_other_than_line_without_timed_spans_falls_back() {
    let data = parse(r#"<tt itunes:timing="word"><body><div><p begin="1s" end="2s">text</p></div></body></tt>"#);
    assert!(data.is_line_timed_source);
    assert_eq!(data.warnings.len(), 1);
    assert_eq!(data.lines[0].line_text.as_deref(), Some("text"));

    let data = parse(
        r#"<tt itunes:timing="word"><body><div><p begin="1s" end="2s"><span begin="1s" end="2s">text</span></p></div></body></tt>"#,
    );
    assert!(!data.is_line_timed_source);
    assert!(data.warnings.is_empty());
}

#[test]
fn invalid_time_is_fatal() {
    let r = parse_ttml(
        r#"<tt><body><div><p begin="bad" end="1s">x</p></div></body></tt>"#,
        &DefaultLanguageOptions::default(),
    );
    match r {
        Err(ConvertError::InvalidTime(m)) => assert!(m.contains("bad")),
        other => panic!("unexpected result {:?}", other.map(|d| d.lines.len())),
    }
}

#[test]
fn malformed_xml_is_fatal() {
    let r = parse_ttml(r#"<tt><body><div></p></div></body></tt>"#, &DefaultLanguageOptions::default());
    match r {
        Err(ConvertError::Xml { position: Some(p), .. }) => assert!(p > 0 && p <= 35),
        other => panic!("unexpected result {:?}", other.map(|d| d.lines.len())),
    }
}

#[test]
fn malformed_attribute_is_fatal() {
    let r = parse_ttml(r#"<tt><body><div><p begin=1s>x</p></div></body></tt>"#, &DefaultLanguageOptions::default());
    assert!(matches!(r, Err(ConvertError::Attribute(_))));
}

#[test]
fn every_parsed_syllable_is_ordered_and_last_one_closes() {
    let mut doc = String::new();
    doc.push_str(r#"<tt xmlns:ttm="http://www.w3.org/ns/ttml#metadata"><body><div>"#);
    doc.push_str(r#"<p begin="0s" end="4s"><span begin="3s" end="1s">a </span> <span begin="1s" end="2s">b </span> "#);
    doc.push_str(r#"<span ttm:role="x-bg"><span begin="5s" end="4s">(c) </span> </span></p>"#);
    doc.push_str(r#"<p begin="4s" end="5s">plain</p></div></body></tt>"#);
    let data = parse(&doc);
    assert_eq!(data.lines.len(), 2);
    for line in &data.lines {
        assert!(line.agent.is_some());
        for s in &line.main_syllables {
            assert!(s.end_ms >= s.start_ms);
        }
        if let Some(last) = line.main_syllables.last() {
            assert!(!last.ends_with_space);
        }
        if let Some(bg) = &line.background_section {
            for s in &bg.syllables {
                assert!(s.end_ms >= s.start_ms);
            }
            if let Some(last) = bg.syllables.last() {
                assert!(!last.ends_with_space);
            }
        }
    }
    assert!(data.lines[0].main_syllables[0].ends_with_space);
}

#[test]
fn explicit_background_window_is_kept() {
    let data = parse(
        r#"<tt xmlns:ttm="x"><body><div><p begin="0s" end="9s"><span begin="0s" end="1s">a</span><span ttm:role="x-bg" begin="5s" end="6s"><span begin="1s" end="2s">x</span><span begin="2s" end="8s">y</span></span></p></div></body></tt>"#,
    );
    let bg = data.lines[0].background_section.as_ref().unwrap();
    assert_eq!((bg.start_ms, bg.end_ms), (5000, 6000));
    assert_eq!(bg.syllables.len(), 2);
}

#[test]
fn background_window_comes_from_its_syllables() {
    let data = parse(
        r#"<tt xmlns:ttm="x"><body><div><p begin="0s" end="9s"><span begin="0s" end="1s">a</span><span ttm:role="x-bg" begin="5s"><span begin="3s" end="4s">x</span><span begin="2s" end="8s">y</span><span begin="2.5s" end="3s">z</span></span></p></div></body></tt>"#,
    );
    let bg = data.lines[0].background_section.as_ref().unwrap();
    assert_eq!((bg.start_ms, bg.end_ms), (2000, 8000));
}

#[test]
fn direct_text_of_a_timed_background_span_is_its_syllable() {
    let data = parse(
        r#"<tt xmlns:ttm="x"><body><div><p begin="0s" end="9s"><span begin="0s" end="1s">a</span><span ttm:role="x-bg" begin="5s" end="6s"> ooh  aah </span></p></div></body></tt>"#,
    );
    let bg = data.lines[0].background_section.as_ref().unwrap();
    assert_eq!(bg.syllables.len(), 1);
    let s = &bg.syllables[0];
    assert_eq!((s.text.as_str(), s.start_ms, s.end_ms, s.ends_with_space), ("ooh aah", 5000, 6000, false));
    assert!(data.warnings.is_empty());
}

#[test]
fn direct_text_of_an_untimed_background_span_is_dropped() {
    let data = parse(
        r#"<tt xmlns:ttm="x"><body><div><p begin="0s" end="9s"><span begin="0s" end="1s">a</span><span ttm:role="x-bg">ooh</span></p></div></body></tt>"#,
    );
    assert!(data.lines[0].background_section.is_none());
    assert_eq!(data.warnings.len(), 1);
    assert!(data.warnings[0].contains("ooh"));
}

#[test]
fn translation_inside_background_belongs_to_it() {
    let data = parse(
        r#"<tt xmlns:ttm="x"><body><div><p begin="0s" end="9s"><span begin="0s" end="1s">a</span><span ttm:role="x-bg"><span begin="1s" end="2s">b</span><span ttm:role="x-translation" xml:lang="en">bee</span><span ttm:role="x-roman">bi</span></span></p></div></body></tt>"#,
    );
    let line = &data.lines[0];
    assert!(line.translations.is_empty());
    let bg = line.background_section.as_ref().unwrap();
    assert_eq!(bg.translations.len(), 1);
    assert_eq!(bg.translations[0].text, "bee");
    assert_eq!(bg.romanizations[0].text, "bi");
}

#[test]
fn uncovered_text_beside_syllables_is_dropped_with_a_warning() {
    let data = parse(
        r#"<tt><body><div><p begin="0s" end="2s">stray<span begin="0s" end="1s">a</span></p></div></body></tt>"#,
    );
    assert_eq!(data.lines[0].main_syllables.len(), 1);
    assert_eq!(data.lines[0].line_text.as_deref(), Some("a"));
    assert_eq!(data.warnings.len(), 1);
    assert!(data.warnings[0].contains("stray"));
}

#[test]
fn direct_text_of_a_word_timed_paragraph_is_one_syllable() {
    let data = parse(
        r#"<tt><body><div><p begin="0s" end="1s"><span begin="0s" end="1s">a</span></p><p begin="3s" end="2s"> whole   line </p></div></body></tt>"#,
    );
    assert!(!data.is_line_timed_source);
    let line = &data.lines[1];
    assert_eq!(line.main_syllables.len(), 1);
    let s = &line.main_syllables[0];
    assert_eq!((s.text.as_str(), s.start_ms, s.end_ms, s.duration_ms), ("whole line", 3000, 3000, Some(0)));
    assert_eq!(line.line_text.as_deref(), Some("whole line"));
    assert_eq!(data.warnings.len(), 1);
}

#[test]
fn syllable_timings_of_a_line_timed_paragraph_are_dropped() {
    let data = parse(
        r#"<tt itunes:timing="line"><body><div><p begin="0s" end="2s"><span begin="0s" end="1s">one </span><span begin="1s" end="2s">two</span></p><p begin="2s" end="2s">flat</p></div></body></tt>"#,
    );
    let line = &data.lines[0];
    assert_eq!(line.line_text.as_deref(), Some("one two"));
    assert_eq!(line.main_syllables.len(), 1);
    assert_eq!((line.main_syllables[0].start_ms, line.main_syllables[0].end_ms), (0, 2000));
    assert_eq!(data.lines[1].line_text.as_deref(), Some("flat"));
    assert!(data.lines[1].main_syllables.is_empty());
    assert!(data.warnings.is_empty());
}

#[test]
fn keyed_translation_is_not_added_twice() {
    let mut doc = String::new();
    doc.push_str(r#"<tt xmlns:ttm="x" itunes:timing="line"><head><metadata><iTunesMetadata><translations>"#);
    doc.push_str(r#"<translation xml:lang="zh"><text for="L1">你好</text><text for="L2"/></translation>"#);
    doc.push_str(r#"</translations></iTunesMetadata></metadata></head><body><div>"#);
    doc.push_str(r#"<p begin="0s" end="1s" itunes:key="L1">Hello<span ttm:role="x-translation">你好</span></p>"#);
    doc.push_str(r#"<p begin="1s" end="2s" itunes:key="L2">World</p></div></body></tt>"#);
    let data = parse(&doc);
    assert_eq!(data.lines[0].translations.len(), 1);
    assert_eq!(data.lines[0].translations[0].lang, None);
    assert!(data.lines[1].translations.is_empty());
}

#[test]
fn song_part_of_the_paragraph_overrides_that_of_the_div() {
    let data = parse(
        r#"<tt itunes:timing="line"><body><div itunes:song-part="Verse"><p begin="0s" end="1s">a</p><p begin="1s" end="2s" itunes:song-part="Bridge">b</p></div><div><p begin="2s" end="3s">c</p></div></body></tt>"#,
    );
    let parts: Vec<Option<&str>> = data.lines.iter().map(|l| l.song_part.as_deref()).collect();
    assert_eq!(parts, vec![Some("Verse"), Some("Bridge"), None]);
}

#[test]
fn lines_come_in_document_order() {
    let data = parse(
        r#"<tt itunes:timing="line"><body><div><p begin="5s" end="6s">late</p><p begin="0s" end="1s">early</p></div></body></tt>"#,
    );
    let texts: Vec<&str> = data.lines.iter().map(|l| l.line_text.as_deref().unwrap()).collect();
    assert_eq!(texts, vec!["late", "early"]);
}
