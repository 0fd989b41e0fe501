use ttml_processor::options::{ChineseConversionOptions, MetadataStripperOptions, SmoothingMode};
use ttml_processor::types::{LyricFormat, LyricLine, ParsedSourceData};

#[test]
fn format_has_a_name() {
    assert_eq!(LyricFormat::Ttml.to_string(), "TTML");
    assert_eq!(LyricFormat::default(), LyricFormat::Ttml);
}

#[test]
fn format_is_found_by_name_whatever_the_case() {
    assert_eq!(LyricFormat::from_name("ttml"), Some(LyricFormat::Ttml));
    assert_eq!(LyricFormat::from_name("TtMl"), Some(LyricFormat::Ttml));
    assert_eq!(LyricFormat::from_name("lrc"), None);
    assert_eq!(LyricFormat::from_name(""), None);
    assert_eq!(LyricFormat::from_name("ttml "), None);
}

#[test]
fn stripper_options_default_to_stripping_without_regard_to_case() {
    let o = MetadataStripperOptions::default();
    assert!(o.enabled && o.enable_regex_stripping);
    assert!(!o.keyword_case_sensitive && !o.regex_case_sensitive);
    assert!(o.keywords.is_none() && o.regex_patterns.is_none());
    assert!(ChineseConversionOptions::default().config_name.is_none());
    assert_eq!(SmoothingMode::default(), SmoothingMode::Global);
}

#[test]
fn empty_values_of_the_data_model() {
    let line = LyricLine::default();
    assert_eq!((line.start_ms, line.end_ms), (0, 0));
    assert!(line.agent.is_none() && line.main_syllables.is_empty());
    let data = ParsedSourceData::default();
    assert!(data.lines.is_empty() && data.raw_metadata.is_empty() && !data.is_line_timed_source);
}
