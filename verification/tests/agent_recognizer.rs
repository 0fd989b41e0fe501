use ttml_processor::agent_recognizer::{
    apply_agent_matches, byte_len, clean_line_text, skip_text_bytes, AgentRecognizerOptions,
};
use ttml_processor::recognize_agents;
use ttml_processor::types::{LyricLine, LyricSyllable};

fn options() -> AgentRecognizerOptions {
    AgentRecognizerOptions {
        enabled: true,
        custom_pattern: None,
        case_sensitive: false,
        inherit_agent: true,
        remove_marker_lines: true,
    }
}

fn text_line(text: &str) -> LyricLine {
    LyricLine { line_text: Some(text.to_string()), agent: Some("v1".to_string()), ..Default::default() }
}

fn syllable(text: &str, start_ms: u64, end_ms: u64) -> LyricSyllable {
    LyricSyllable { text: text.to_string(), start_ms, end_ms, duration_ms: Some(end_ms - start_ms), ends_with_space: false }
}

fn syllable_line(parts: &[&str]) -> LyricLine {
    let mut line = LyricLine { agent: Some("v1".to_string()), ..Default::default() };
    let mut t: u64 = 0;
    for p in parts {
        line.main_syllables.push(syllable(p, t, t + 100));
        t += 100;
    }
    line
}

#[test]
fn marker_with_text_sets_agent_and_is_removed() {
    let mut lines = vec![text_line("(Alice): Hello")];
    recognize_agents(&mut lines, &options()).unwrap();
    assert_eq!(lines.len(), 1);
    assert_eq!(lines[0].agent.as_deref(), Some("Alice"));
    assert_eq!(lines[0].line_text.as_deref(), Some("Hello"));
}

#[test]
fn marker_only_line_is_removed_and_inherited() {
    let mut lines = vec![text_line("(Bob):"), text_line("first"), text_line("second")];
    recognize_agents(&mut lines, &options()).unwrap();
    assert_eq!(lines.len(), 2);
    assert_eq!(lines[0].agent.as_deref(), Some("Bob"));
    assert_eq!(lines[0].line_text.as_deref(), Some("first"));
    assert_eq!(lines[1].agent.as_deref(), Some("Bob"));
}

#[test]
fn marker_only_line_is_kept_when_asked() {
    let mut opts = options();
    opts.remove_marker_lines = false;
    let mut lines = vec![text_line("(Bob): "), text_line("next")];
    recognize_agents(&mut lines, &opts).unwrap();
    assert_eq!(lines.len(), 2);
    assert_eq!(lines[0].line_text.as_deref(), Some(""));
    assert_eq!(lines[0].agent.as_deref(), Some("v1"));
    assert_eq!(lines[1].agent.as_deref(), Some("Bob"));
}

#[test]
fn lines_before_any_marker_inherit_nothing() {
    let mut lines = vec![text_line("no marker here")];
    recognize_agents(&mut lines, &options()).unwrap();
    assert_eq!(lines[0].agent, None);
    assert_eq!(lines[0].line_text.as_deref(), Some("no marker here"));
}

#[test]
fn without_inheritance_agents_stay() {
    let mut opts = options();
    opts.inherit_agent = false;
    let mut lines = vec![text_line("(Bob):"), text_line("plain")];
    recognize_agents(&mut lines, &opts).unwrap();
    assert_eq!(lines.len(), 1);
    assert_eq!(lines[0].agent.as_deref(), Some("v1"));
}

#[test]
fn disabled_recognizer_changes_nothing() {
    let mut opts = options();
    opts.enabled = false;
    opts.custom_pattern = Some("(".to_string());
    let mut lines = vec![text_line("(Alice): Hello")];
    let before = lines.clone();
    recognize_agents(&mut lines, &opts).unwrap();
    assert_eq!(lines, before);
}

#[test]
fn full_width_and_bare_markers() {
    let mut lines = vec![text_line("（小明）：你好"), text_line("Carol: hi"), text_line("Dave ： yo")];
    recognize_agents(&mut lines, &options()).unwrap();
    assert_eq!(lines[0].agent.as_deref(), Some("小明"));
    assert_eq!(lines[0].line_text.as_deref(), Some("你好"));
    assert_eq!(lines[1].agent.as_deref(), Some("Carol"));
    assert_eq!(lines[1].line_text.as_deref(), Some("hi"));
    assert_eq!(lines[2].agent.as_deref(), Some("Dave"));
    assert_eq!(lines[2].line_text.as_deref(), Some("yo"));
}

#[test]
fn marker_is_removed_from_syllables() {
    let mut lines = vec![syllable_line(&["(Al", "ice):", " He", "llo"])];
    recognize_agents(&mut lines, &options()).unwrap();
    assert_eq!(lines[0].agent.as_deref(), Some("Alice"));
    let texts: Vec<&str> = lines[0].main_syllables.iter().map(|s| s.text.as_str()).collect();
    assert_eq!(texts, vec!["He", "llo"]);
    assert_eq!(lines[0].main_syllables[0].start_ms, 200);
    assert_eq!(lines[0].line_text, None);
}

#[test]
fn marker_inside_one_syllable_truncates_it() {
    let mut lines = vec![syllable_line(&["Bob:Hey", "you"])];
    recognize_agents(&mut lines, &options()).unwrap();
    let texts: Vec<&str> = lines[0].main_syllables.iter().map(|s| s.text.as_str()).collect();
    assert_eq!(texts, vec!["Hey", "you"]);
    assert_eq!(lines[0].agent.as_deref(), Some("Bob"));
}

#[test]
fn custom_pattern_and_case() {
    let mut opts = options();
    opts.custom_pattern = Some(r"^\[(singer\w*)\]\s*".to_string());
    let mut lines = vec![text_line("[SINGERa] la la")];
    recognize_agents(&mut lines, &opts).unwrap();
    assert_eq!(lines[0].agent.as_deref(), Some("SINGERa"));
    assert_eq!(lines[0].line_text.as_deref(), Some("la la"));

    opts.case_sensitive = true;
    let mut lines = vec![text_line("[SINGERa] la la")];
    recognize_agents(&mut lines, &opts).unwrap();
    assert_eq!(lines[0].agent, None);
    assert_eq!(lines[0].line_text.as_deref(), Some("[SINGERa] la la"));
}

#[test]
fn pattern_that_does_not_compile_is_reported() {
    let mut opts = options();
    opts.custom_pattern = Some("(unclosed".to_string());
    let mut lines = vec![text_line("(Alice): Hello")];
    let before = lines.clone();
    assert!(recognize_agents(&mut lines, &opts).is_err());
    assert_eq!(lines, before);
}

#[test]
fn order_of_lines_is_kept() {
    let mut lines = vec![text_line("A: one"), text_line("(B):"), text_line("two"), text_line("C: three")];
    recognize_agents(&mut lines, &options()).unwrap();
    let texts: Vec<&str> = lines.iter().map(|l| l.line_text.as_deref().unwrap()).collect();
    assert_eq!(texts, vec!["one", "two", "three"]);
    let agents: Vec<&str> = lines.iter().map(|l| l.agent.as_deref().unwrap()).collect();
    assert_eq!(agents, vec!["A", "B", "C"]);
}

#[test]
fn matches_given_by_hand_are_applied() {
    let mut lines = vec![text_line("X- hello"), text_line("rest")];
    let found = vec![
        Some(vec![Some("X- ".to_string()), None, None, Some(" X ".to_string())]),
        None,
    ];
    apply_agent_matches(&mut lines, &found, true, true);
    assert_eq!(lines[0].agent.as_deref(), Some("X"));
    assert_eq!(lines[0].line_text.as_deref(), Some("hello"));
    assert_eq!(lines[1].agent.as_deref(), Some("X"));
}

#[test]
fn byte_lengths_and_truncation_respect_code_points() {
    assert_eq!(byte_len("aé你😀"), 1 + 2 + 3 + 4);
    assert_eq!(skip_text_bytes("你好吗", 3), "好吗");
    assert_eq!(skip_text_bytes("你好吗", 4), "好吗");
    assert_eq!(skip_text_bytes("你好吗", 2), "你好吗");
    assert_eq!(skip_text_bytes("abc", 5), "");
}

#[test]
fn cleaning_rebuilds_text_from_syllables_when_prefix_differs() {
    let mut line = syllable_line(&["ab", "cd"]);
    line.line_text = Some("xyz".to_string());
    clean_line_text(&mut line, "ab");
    let texts: Vec<&str> = line.main_syllables.iter().map(|s| s.text.as_str()).collect();
    assert_eq!(texts, vec!["cd"]);
    assert_eq!(line.line_text.as_deref(), Some("cd"));
}

#[test]
fn match_that_is_not_at_the_start_is_no_match() {
    let mut opts = options();
    opts.custom_pattern = Some(r"\[(\w+)\]".to_string());
    let mut lines = vec![text_line("[A] first"), text_line("later [B] second")];
    recognize_agents(&mut lines, &opts).unwrap();
    assert_eq!(lines[0].agent.as_deref(), Some("A"));
    assert_eq!(lines[0].line_text.as_deref(), Some(" first"));
    assert_eq!(lines[1].agent.as_deref(), Some("A"));
    assert_eq!(lines[1].line_text.as_deref(), Some("later [B] second"));
}

#[test]
fn first_group_that_is_not_empty_names_the_agent() {
    let mut opts = options();
    opts.custom_pattern = Some(r"^(x*)(\w+)(!?)(\w*):".to_string());
    let mut lines = vec![text_line("Zed: hi")];
    recognize_agents(&mut lines, &opts).unwrap();
    assert_eq!(lines[0].agent.as_deref(), Some("Zed"));

    let mut lines = vec![text_line("q hello")];
    let found = vec![Some(vec![Some("q ".to_string()), Some(String::new()), None, Some(String::new()), Some("z".to_string())])];
    apply_agent_matches(&mut lines, &found, true, true);
    assert_eq!(lines[0].agent, None);
    assert_eq!(lines[0].line_text.as_deref(), Some("q hello"));
}

#[test]
fn pattern_with_fewer_groups_is_accepted() {
    let mut opts = options();
    opts.custom_pattern = Some(r"^(\w+)>\s*".to_string());
    let mut lines = vec![text_line("Amy> hello")];
    recognize_agents(&mut lines, &opts).unwrap();
    assert_eq!(lines[0].agent.as_deref(), Some("Amy"));
    assert_eq!(lines[0].line_text.as_deref(), Some("hello"));
}
