use ttml_processor::adapter::{
    convert_to_amll_lyrics, extract_line_components, get_track_text, AnnotatedTrack, ContentType, LyricTrack,
    TrackLine, Word,
};
use ttml_processor::types::LyricSyllable;

fn syllable(text: &str, start_ms: u64, end_ms: u64, ends_with_space: bool) -> LyricSyllable {
    LyricSyllable { text: text.to_string(), start_ms, end_ms, duration_ms: None, ends_with_space }
}

fn track(syllables: Vec<LyricSyllable>, language: Option<&str>) -> LyricTrack {
    LyricTrack {
        words: syllables.into_iter().map(|s| Word { syllables: vec![s] }).collect(),
        language: language.map(|l| l.to_string()),
    }
}

fn main_track(syllables: Vec<LyricSyllable>) -> AnnotatedTrack {
    AnnotatedTrack {
        content_type: ContentType::Main,
        content: track(syllables, None),
        translations: vec![],
        romanizations: vec![],
    }
}

fn line(agent: Option<&str>, start_ms: u64) -> TrackLine {
    TrackLine {
        tracks: vec![main_track(vec![
            syllable("a", start_ms, start_ms + 100, true),
            syllable("b", start_ms + 100, start_ms + 200, false),
        ])],
        start_ms,
        end_ms: start_ms + 200,
        agent: agent.map(|a| a.to_string()),
    }
}

#[test]
fn agents_alternate_in_order_of_first_appearance() {
    let lines = vec![line(Some("v1"), 0), line(Some("v3"), 200), line(Some("v4"), 400), line(Some("v3"), 600)];
    let flags: Vec<bool> = convert_to_amll_lyrics(&lines).iter().map(|l| l.is_duet).collect();
    assert_eq!(flags, vec![false, false, true, false]);
}

#[test]
fn fixed_agents_do_not_count() {
    let lines = vec![
        line(None, 0),
        line(Some("v2"), 200),
        line(Some("v1000"), 400),
        line(Some("x"), 600),
        line(Some("v2"), 800),
        line(Some("y"), 1000),
        line(Some("z"), 1200),
    ];
    let flags: Vec<bool> = convert_to_amll_lyrics(&lines).iter().map(|l| l.is_duet).collect();
    assert_eq!(flags, vec![false, true, false, false, true, true, false]);
}

#[test]
fn words_come_from_syllables() {
    let out = convert_to_amll_lyrics(&vec![line(Some("v1"), 1000), line(None, 2000)]);
    assert_eq!(out.len(), 2);
    let first = &out[0];
    assert_eq!((first.start_time, first.end_time), (1000, 1200));
    assert!(!first.is_bg);
    let words: Vec<(&str, u64, u64)> = first.words.iter().map(|w| (w.word.as_str(), w.start_time, w.end_time)).collect();
    assert_eq!(words, vec![("a ", 1000, 1100), ("b", 1100, 1200)]);
    assert_eq!(first.translated_lyric, "");
    assert_eq!(first.roman_lyric, "");
}

#[test]
fn single_syllable_document_is_sustained_for_an_hour() {
    let only = TrackLine {
        tracks: vec![main_track(vec![syllable("♪", 5000, 6000, false)])],
        start_ms: 5000,
        end_ms: 6000,
        agent: None,
    };
    let out = convert_to_amll_lyrics(&vec![only.clone()]);
    assert_eq!(out.len(), 1);
    assert_eq!(out[0].words[0].end_time, 5000 + 3_600_000);
    assert_eq!(out[0].end_time, 3_605_000);

    let out = convert_to_amll_lyrics(&vec![only.clone(), only]);
    assert_eq!(out[0].words[0].end_time, 6000);
}

#[test]
fn romanization_attaches_by_largest_overlap() {
    let main = vec![syllable("今", 0, 500, false), syllable("日", 500, 1000, false), syllable("は", 1000, 1200, false)];
    let romans = vec![track(
        vec![
            syllable("kyo", 0, 400, false),
            syllable("u", 400, 700, false),
            syllable("wa", 2000, 2100, false),
            syllable("x", 450, 1150, false),
        ],
        None,
    )];
    let (words, translation, romanization) = extract_line_components(&main, &vec![], &romans, false);
    let roman: Vec<&str> = words.iter().map(|w| w.roman_word.as_str()).collect();
    assert_eq!(roman, vec!["kyo", "ux", ""]);
    assert_eq!(translation, "");
    assert_eq!(romanization, "");
}

#[test]
fn untimed_single_romanization_stands_for_the_line() {
    let main = vec![syllable("今", 0, 500, false), syllable("日", 500, 1000, false)];
    let romans = vec![track(vec![syllable("kyou", 0, 0, false)], None)];
    let (words, _, romanization) = extract_line_components(&main, &vec![], &romans, false);
    assert_eq!(romanization, "kyou");
    assert!(words.iter().all(|w| w.roman_word.is_empty()));
}

#[test]
fn translation_prefers_simplified_chinese() {
    let main = vec![syllable("hi", 0, 500, false)];
    let translations = vec![
        track(vec![syllable("salut", 0, 0, false)], Some("fr")),
        track(vec![syllable("你", 0, 0, true), syllable("好", 0, 0, true)], Some("ZH-cn")),
    ];
    let (_, translation, _) = extract_line_components(&main, &translations, &vec![], false);
    assert_eq!(translation, "你 好");

    let translations = vec![
        track(vec![syllable("salut", 0, 0, false)], Some("fr")),
        track(vec![syllable("hola", 0, 0, false)], None),
    ];
    let (_, translation, _) = extract_line_components(&main, &translations, &vec![], false);
    assert_eq!(translation, "salut");

    let translations = vec![track(vec![syllable("//", 0, 0, false)], Some("zh-CN"))];
    let (_, translation, _) = extract_line_components(&main, &translations, &vec![], false);
    assert_eq!(translation, "");
}

#[test]
fn track_text_joins_syllables() {
    let t = LyricTrack {
        words: vec![
            Word { syllables: vec![syllable("Hel", 0, 1, false), syllable("lo", 1, 2, true)] },
            Word { syllables: vec![syllable("you", 2, 3, true)] },
        ],
        language: None,
    };
    assert_eq!(get_track_text(&t), "Hello you");
}

#[test]
fn background_line_follows_and_extends_the_main_line() {
    let both = TrackLine {
        tracks: vec![
            AnnotatedTrack {
                content_type: ContentType::Background,
                content: track(vec![syllable("ooh", 900, 1500, false)], None),
                translations: vec![],
                romanizations: vec![],
            },
            main_track(vec![syllable("yeah", 0, 1000, false)]),
        ],
        start_ms: 0,
        end_ms: 1000,
        agent: Some("v2".to_string()),
    };
    let empty = TrackLine { tracks: vec![main_track(vec![])], start_ms: 0, end_ms: 0, agent: None };
    let out = convert_to_amll_lyrics(&vec![both, empty]);
    assert_eq!(out.len(), 2);
    assert!(!out[0].is_bg && out[1].is_bg);
    assert!(out[0].is_duet && out[1].is_duet);
    assert_eq!((out[0].start_time, out[0].end_time), (0, 1500));
    assert_eq!((out[1].start_time, out[1].end_time), (900, 1500));
    assert_eq!(out[1].words[0].word, "ooh");
}
