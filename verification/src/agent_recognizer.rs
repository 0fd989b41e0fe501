//! Agent recognition: the singer of a line, from a prefix such as `(Name):`.

use crate::parser::body::or_else;
use crate::parser::support::{has_prefix, lemma_deep_update, push_model, str_starts_with};
use crate::pattern::{pattern_captures, regex_captures};
use crate::text::{chars_of, is_blank, string_of_range, trim, trim_text};
use crate::types::{LineModel, LyricLine, LyricSyllable, SyllableModel};
use vstd::prelude::*;

verus! {

/// How agents are recognized.
#[derive(Debug, Clone)]
pub struct AgentRecognizerOptions {
    /// Whether the pass does anything at all.
    pub enabled: bool,
    /// The pattern to use in place of the default one.
    pub custom_pattern: Option<String>,
    /// Whether the pattern distinguishes upper and lower case.
    pub case_sensitive: bool,
    /// Whether a line without a marker takes the agent of the last marker.
    pub inherit_agent: bool,
    /// Whether a line that holds a marker and nothing else is removed.
    pub remove_marker_lines: bool,
}

/// What a search for the pattern in the text of a line found: `None` for no
/// match, else the text of every group, group 0 being the whole match.
pub type Groups = Option<Vec<Option<String>>>;

/// Model of [`Groups`].
pub type GroupsModel = Option<Seq<Option<Seq<char>>>>;

/// The default pattern: `(Name)`, its full-width form, or a bare `Name`, at
/// the start of the line, followed by a colon.
pub open spec fn default_pattern() -> Seq<char> {
    "^\\s*(?:\\((.+?)\\)|\u{FF08}(.+?)\u{FF09}|([^\\s:()\u{FF08}\u{FF09}]+))\\s*[:\u{FF1A}]\\s*"@
}

/// The pattern that the options ask for.
pub open spec fn agent_pattern(options: AgentRecognizerOptions) -> Seq<char> {
    match options.custom_pattern {
        Some(p) => p@,
        None => default_pattern(),
    }
}

/// The pattern that the options ask for.
pub fn get_agent_pattern(options: &AgentRecognizerOptions) -> (r: String)
    ensures
        r@ == agent_pattern(*options),
{
    match &options.custom_pattern {
        Some(p) => p.clone(),
        None => String::from_str(
            "^\\s*(?:\\((.+?)\\)|\u{FF08}(.+?)\u{FF09}|([^\\s:()\u{FF08}\u{FF09}]+))\\s*[:\u{FF1A}]\\s*",
        ),
    }
}

/// The number of bytes of a character in UTF-8.
pub open spec fn char_width(c: char) -> nat {
    let n = c as u32;
    if n < 0x80 {
        1
    } else if n < 0x800 {
        2
    } else if n < 0x10000 {
        3
    } else {
        4
    }
}

/// The number of bytes of a text in UTF-8.
pub open spec fn utf8_len(s: Seq<char>) -> nat
    decreases s.len(),
{
    if s.len() == 0 {
        0
    } else {
        utf8_len(s.drop_last()) + char_width(s.last())
    }
}

/// `s` without the leading characters that fit, whole, in a number of bytes.
pub open spec fn skip_bytes(s: Seq<char>, budget: nat) -> Seq<char>
    decreases s.len(),
{
    if s.len() > 0 && char_width(s[0]) <= budget {
        skip_bytes(s.drop_first(), (budget - char_width(s[0])) as nat)
    } else {
        s
    }
}

/// The texts of the syllables, one after another.
pub open spec fn syllable_texts(syllables: Seq<SyllableModel>) -> Seq<char>
    decreases syllables.len(),
{
    if syllables.len() == 0 {
        Seq::<char>::empty()
    } else {
        syllable_texts(syllables.drop_last()) + syllables.last().text
    }
}

/// The text in which a marker is looked for: the text of the line, or the
/// texts of its syllables where it has none.
pub open spec fn line_text_of(line: LineModel) -> Seq<char> {
    match line.line_text {
        Some(t) => t,
        None => syllable_texts(line.main_syllables),
    }
}

/// The syllables without a prefix of a number of bytes: whole syllables are
/// dropped while their text fits in what is left of the prefix, and the next
/// syllable loses the leading characters that fit.
pub open spec fn strip_syllables(syllables: Seq<SyllableModel>, budget: nat) -> Seq<SyllableModel>
    decreases syllables.len(),
{
    if syllables.len() == 0 {
        syllables
    } else if utf8_len(syllables[0].text) <= budget {
        strip_syllables(syllables.drop_first(), (budget - utf8_len(syllables[0].text)) as nat)
    } else if budget > 0 {
        syllables.update(0, SyllableModel { text: skip_bytes(syllables[0].text, budget), ..syllables[0] })
    } else {
        syllables
    }
}

/// The line without the marker: the syllables lose the prefix by its length
/// in bytes; the text of the line loses it where it begins with it, and is
/// spelled anew from the syllables that are left otherwise.
pub open spec fn clean_line(line: LineModel, prefix: Seq<char>) -> LineModel {
    let syllables = strip_syllables(line.main_syllables, utf8_len(prefix));
    let line_text = match line.line_text {
        None => None,
        Some(t) => if has_prefix(t, prefix) {
            Some(t.subrange(prefix.len() as int, t.len() as int))
        } else if syllables.len() > 0 {
            Some(syllable_texts(syllables))
        } else {
            Some(t)
        },
    };
    LineModel { main_syllables: syllables, line_text: line_text, ..line }
}

/// The text of group `i` of a match; `None` where the match holds no such
/// group.
pub open spec fn group(groups: Seq<Option<Seq<char>>>, i: int) -> Option<Seq<char>> {
    if 0 <= i < groups.len() {
        groups[i]
    } else {
        None
    }
}

/// The text of group `i` of a match, where it is not empty.
pub open spec fn filled_group(groups: Seq<Option<Seq<char>>>, i: int) -> Option<Seq<char>> {
    match group(groups, i) {
        Some(text) => if text.len() > 0 {
            Some(text)
        } else {
            None
        },
        None => None,
    }
}

/// The name that a match gives: the first of groups 1 to 3 that is not
/// empty, trimmed.
pub open spec fn matched_name(groups: Seq<Option<Seq<char>>>) -> Option<Seq<char>> {
    match or_else(filled_group(groups, 1), or_else(filled_group(groups, 2), filled_group(groups, 3))) {
        Some(name) => Some(trim(name)),
        None => None,
    }
}

/// What recognition does to one line, given what the search in its text
/// found and the agent of the last marker. The first part of the result is
/// the line as it stays, or `None` where it is removed; the second part is
/// the agent of the last marker afterwards.
///
/// A match counts where it gives a name and stands at the start of the
/// text. A match whose text is the whole line, up to whitespace, is a
/// marker: its name becomes the agent of the lines that follow, and the line
/// is removed or loses the marker. Any other match gives the line its agent
/// and is removed from it. A line without a match that counts inherits,
/// where asked to.
pub open spec fn recognize_line(
    line: LineModel,
    found: GroupsModel,
    carry: Option<Seq<char>>,
    inherit_agent: bool,
    remove_marker_lines: bool,
) -> (Option<LineModel>, Option<Seq<char>>) {
    let inherited = if inherit_agent {
        LineModel { agent: carry, ..line }
    } else {
        line
    };
    match found {
        None => (Some(inherited), carry),
        Some(groups) => match (matched_name(groups), group(groups, 0)) {
            (Some(name), Some(whole)) => {
                let text = line_text_of(line);
                if has_prefix(text, whole) {
                    if trim(text.subrange(whole.len() as int, text.len() as int)).len() == 0 {
                        if remove_marker_lines {
                            (None, Some(name))
                        } else {
                            (Some(clean_line(line, whole)), Some(name))
                        }
                    } else {
                        (Some(clean_line(LineModel { agent: Some(name), ..line }, whole)), Some(name))
                    }
                } else {
                    (Some(inherited), carry)
                }
            },
            _ => (Some(inherited), carry),
        },
    }
}

/// What recognition does to a sequence of lines, given what the search in
/// the text of each found: the lines that stay, in order, and the agent of
/// the last marker.
pub open spec fn recognize_all(
    lines: Seq<LineModel>,
    found: Seq<GroupsModel>,
    inherit_agent: bool,
    remove_marker_lines: bool,
) -> (Seq<LineModel>, Option<Seq<char>>)
    decreases lines.len(),
{
    if lines.len() == 0 || found.len() != lines.len() {
        (Seq::empty(), None)
    } else {
        let (done, carry) = recognize_all(lines.drop_last(), found.drop_last(), inherit_agent, remove_marker_lines);
        let (line, next) = recognize_line(lines.last(), found.last(), carry, inherit_agent, remove_marker_lines);
        match line {
            Some(l) => (done.push(l), next),
            None => (done, next),
        }
    }
}

/// Recognition adds no line, and where marker lines are kept it removes none.
pub proof fn lemma_recognition_keeps_count(
    lines: Seq<LineModel>,
    found: Seq<GroupsModel>,
    inherit_agent: bool,
    remove_marker_lines: bool,
)
    requires
        found.len() == lines.len(),
    ensures
        recognize_all(lines, found, inherit_agent, remove_marker_lines).0.len() <= lines.len(),
        !remove_marker_lines ==> recognize_all(lines, found, inherit_agent, remove_marker_lines).0.len()
            == lines.len(),
    decreases lines.len(),
{
    if lines.len() > 0 {
        lemma_recognition_keeps_count(lines.drop_last(), found.drop_last(), inherit_agent, remove_marker_lines);
    }
}

/// What the search for the pattern finds in the text of each line: `None`
/// where the pattern does not compile.
pub open spec fn searches(lines: Seq<LineModel>, options: AgentRecognizerOptions) -> Seq<Option<GroupsModel>> {
    Seq::new(
        lines.len(),
        |i: int| pattern_captures(agent_pattern(options), !options.case_sensitive, line_text_of(lines[i])),
    )
}

/// Every search has a result: the pattern compiles.
pub open spec fn all_searched(results: Seq<Option<GroupsModel>>) -> bool {
    forall|i: int| 0 <= i < results.len() ==> (#[trigger] results[i]) is Some
}

/// The results of the searches.
pub open spec fn search_results(results: Seq<Option<GroupsModel>>) -> Seq<GroupsModel> {
    Seq::new(results.len(), |i: int| results[i]->0)
}

/// The lines after recognition with the given options, or `None` where the
/// pattern does not compile.
pub open spec fn recognized(lines: Seq<LineModel>, options: AgentRecognizerOptions) -> Option<Seq<LineModel>> {
    if !options.enabled {
        Some(lines)
    } else if all_searched(searches(lines, options)) {
        Some(
            recognize_all(
                lines,
                search_results(searches(lines, options)),
                options.inherit_agent,
                options.remove_marker_lines,
            ).0,
        )
    } else {
        None
    }
}

/// The number of bytes of a character in UTF-8.
pub fn width_of(c: char) -> (w: u128)
    ensures
        w == char_width(c),
        1 <= w <= 4,
{
    let n: u32 = c as u32;
    if n < 0x80 {
        1
    } else if n < 0x800 {
        2
    } else if n < 0x10000 {
        3
    } else {
        4
    }
}

/// The number of bytes of a text in UTF-8.
pub fn byte_len(text: &str) -> (n: u128)
    ensures
        n == utf8_len(text@),
        n <= 4 * text@.len(),
{
    let v = chars_of(text);
    let mut n: u128 = 0;
    let mut i: usize = 0;
    while i < v.len()
        invariant
            i <= v.len(),
            v@ == text@,
            n == utf8_len(v@.subrange(0, i as int)),
            n <= 4 * i,
        decreases v.len() - i,
    {
        proof {
            let next = v@.subrange(0, i + 1);
            assert(next.drop_last() == v@.subrange(0, i as int));
            assert(next.last() == v@[i as int]);
        }
        n = n + width_of(v[i]);
        i += 1;
    }
    assert(v@.subrange(0, v.len() as int) == v@);
    n
}

/// The text without the leading characters that fit in a number of bytes.
pub fn skip_text_bytes(text: &str, budget: u128) -> (r: String)
    ensures
        r@ == skip_bytes(text@, budget as nat),
{
    let v = chars_of(text);
    let mut left: u128 = budget;
    let mut i: usize = 0;
    assert(v@.subrange(0, v.len() as int) == v@);
    while i < v.len() && width_of(v[i]) <= left
        invariant
            i <= v.len(),
            v@ == text@,
            skip_bytes(text@, budget as nat) == skip_bytes(v@.subrange(i as int, v.len() as int), left as nat),
        decreases v.len() - i,
    {
        proof {
            let rest = v@.subrange(i as int, v.len() as int);
            assert(rest[0] == v@[i as int]);
            assert(rest.drop_first() == v@.subrange(i + 1, v.len() as int));
        }
        left = left - width_of(v[i]);
        i += 1;
    }
    proof {
        let rest = v@.subrange(i as int, v.len() as int);
        if i < v.len() {
            assert(rest[0] == v@[i as int]);
        }
    }
    string_of_range(&v, i, v.len())
}

/// The texts of the syllables, one after another.
pub fn join_syllable_texts(syllables: &Vec<LyricSyllable>) -> (r: String)
    ensures
        r@ == syllable_texts(syllables.deep_view()),
{
    let ghost all = syllables.deep_view();
    let mut out = String::new();
    let mut i: usize = 0;
    while i < syllables.len()
        invariant
            i <= syllables.len(),
            all == syllables.deep_view(),
            out@ == syllable_texts(all.subrange(0, i as int)),
        decreases syllables.len() - i,
    {
        proof {
            let next = all.subrange(0, i + 1);
            assert(next.drop_last() == all.subrange(0, i as int));
            assert(next.last() == all[i as int]);
        }
        out.append(syllables[i].text.as_str());
        i += 1;
    }
    assert(all.subrange(0, syllables.len() as int) == all);
    out
}

/// The text in which a marker is looked for.
pub fn get_line_text(line: &LyricLine) -> (r: String)
    ensures
        r@ == line_text_of(line.deep_view()),
{
    match &line.line_text {
        Some(text) => text.clone(),
        None => join_syllable_texts(&line.main_syllables),
    }
}

/// Removes a prefix of a number of bytes from the syllables.
pub fn strip_leading_syllables(syllables: &mut Vec<LyricSyllable>, budget: u128)
    ensures
        final(syllables).deep_view() == strip_syllables(old(syllables).deep_view(), budget as nat),
{
    let ghost all = syllables.deep_view();
    let n = syllables.len();
    let mut left: u128 = budget;
    let mut k: usize = 0;
    assert(all.subrange(0, n as int) == all);
    while k < n && byte_len(syllables[k].text.as_str()) <= left
        invariant
            k <= n == syllables.len(),
            *syllables == *old(syllables),
            all == syllables.deep_view(),
            strip_syllables(all, budget as nat) == strip_syllables(all.subrange(k as int, n as int), left as nat),
        decreases n - k,
    {
        proof {
            let rest = all.subrange(k as int, n as int);
            assert(rest[0] == all[k as int]);
            assert(rest.drop_first() == all.subrange(k + 1, n as int));
        }
        left = left - byte_len(syllables[k].text.as_str());
        k += 1;
    }
    let ghost rest = all.subrange(k as int, n as int);
    let mut tail = syllables.split_off(k);
    assert(tail.deep_view() =~= rest);
    if k < n && left > 0 {
        let ghost before = tail;
        let mut first = tail.remove(0);
        assert(first.deep_view() == rest[0]);
        first.text = skip_text_bytes(first.text.as_str(), left);
        let ghost changed = first;
        tail.insert(0, first);
        proof {
            assert(tail@ =~= before@.update(0, changed));
            lemma_deep_update(before, tail, 0, changed);
        }
    }
    *syllables = tail;
}

/// Removes a marker from a line.
pub fn clean_line_text(line: &mut LyricLine, prefix_to_remove: &str)
    ensures
        final(line).deep_view() == clean_line(old(line).deep_view(), prefix_to_remove@),
{
    strip_leading_syllables(&mut line.main_syllables, byte_len(prefix_to_remove));
    let new_text: Option<String> = match &line.line_text {
        None => None,
        Some(text) => {
            if str_starts_with(text.as_str(), prefix_to_remove) {
                let v = chars_of(text.as_str());
                let p = chars_of(prefix_to_remove);
                Some(string_of_range(&v, p.len(), v.len()))
            } else if line.main_syllables.len() > 0 {
                Some(join_syllable_texts(&line.main_syllables))
            } else {
                Some(text.clone())
            }
        },
    };
    line.line_text = new_text;
}

/// The text of group `i` of a match.
pub fn group_text(groups: &Vec<Option<String>>, i: usize) -> (r: Option<String>)
    ensures
        r.deep_view() == group(groups.deep_view(), i as int),
{
    if i < groups.len() {
        groups[i].clone()
    } else {
        None
    }
}

/// The text of group `i` of a match, where it is not empty.
pub fn filled_group_text(groups: &Vec<Option<String>>, i: usize) -> (r: Option<String>)
    ensures
        r.deep_view() == filled_group(groups.deep_view(), i as int),
{
    match group_text(groups, i) {
        Some(text) => {
            if text.as_str().is_empty() {
                None
            } else {
                Some(text)
            }
        },
        None => None,
    }
}

/// The name that a match gives.
pub fn name_of_match(groups: &Vec<Option<String>>) -> (r: Option<String>)
    ensures
        r.deep_view() == matched_name(groups.deep_view()),
{
    let first = filled_group_text(groups, 1);
    let chosen = if first.is_some() {
        first
    } else {
        let second = filled_group_text(groups, 2);
        if second.is_some() {
            second
        } else {
            filled_group_text(groups, 3)
        }
    };
    match chosen {
        Some(name) => Some(trim_text(name.as_str())),
        None => None,
    }
}

/// Applies recognition to one line. Returns the line as it stays, or `None`
/// where it is removed; `carry` is the agent of the last marker.
pub fn recognize_in_line(
    line: LyricLine,
    found: &Groups,
    carry: &mut Option<String>,
    inherit_agent: bool,
    remove_marker_lines: bool,
) -> (r: Option<LyricLine>)
    ensures
        (r.deep_view(), final(carry).deep_view()) == recognize_line(
            line.deep_view(),
            found.deep_view(),
            old(carry).deep_view(),
            inherit_agent,
            remove_marker_lines,
        ),
{
    let mut line = line;
    let named: Option<(String, String)> = match found {
        None => None,
        Some(groups) => match (name_of_match(groups), group_text(groups, 0)) {
            (Some(name), Some(whole)) => Some((name, whole)),
            _ => None,
        },
    };
    match named {
        None => {
            if inherit_agent {
                line.agent = carry.clone();
            }
            Some(line)
        },
        Some((name, whole)) => {
            let text = get_line_text(&line);
            if str_starts_with(text.as_str(), whole.as_str()) {
                let v = chars_of(text.as_str());
                let w = chars_of(whole.as_str());
                let remaining = string_of_range(&v, w.len(), v.len());
                if is_blank(remaining.as_str()) {
                    *carry = Some(name);
                    if remove_marker_lines {
                        return None;
                    }
                } else {
                    line.agent = Some(name.clone());
                    *carry = Some(name);
                }
                clean_line_text(&mut line, whole.as_str());
            } else if inherit_agent {
                line.agent = carry.clone();
            }
            Some(line)
        },
    }
}

/// The elements in the opposite order.
pub fn reversed<T>(v: Vec<T>) -> (r: Vec<T>)
    ensures
        r.len() == v.len(),
        forall|j: int| 0 <= j < r.len() ==> r[j] == v[v.len() - 1 - j],
{
    let ghost all = v@;
    let mut v = v;
    let mut r: Vec<T> = Vec::new();
    while v.len() > 0
        invariant
            v.len() + r.len() == all.len(),
            v@ == all.subrange(0, v.len() as int),
            forall|j: int| 0 <= j < r.len() ==> r[j] == all[all.len() - 1 - j],
        decreases v.len(),
    {
        match v.pop() {
            Some(x) => r.push(x),
            None => {},
        }
    }
    r
}

/// Applies recognition to the lines, given what the search for the pattern
/// found in the text of each line.
pub fn apply_agent_matches(
    lines: &mut Vec<LyricLine>,
    found: &Vec<Groups>,
    inherit_agent: bool,
    remove_marker_lines: bool,
)
    requires
        found.len() == old(lines).len(),
    ensures
        final(lines).deep_view() == recognize_all(
            old(lines).deep_view(),
            found.deep_view(),
            inherit_agent,
            remove_marker_lines,
        ).0,
{
    let ghost all = lines.deep_view();
    let ghost results = found.deep_view();
    let n = lines.len();
    let mut taken: Vec<LyricLine> = Vec::new();
    core::mem::swap(lines, &mut taken);
    let mut rest = reversed(taken);
    let mut carry: Option<String> = None;
    let mut i: usize = 0;
    assert(lines.deep_view() =~= Seq::empty());
    while i < n
        invariant
            i <= n == found.len(),
            all.len() == n,
            rest.len() == n - i,
            results == found.deep_view(),
            forall|j: int| 0 <= j < rest.len() ==> (#[trigger] rest[j]).deep_view() == all[n - 1 - j],
            (lines.deep_view(), carry.deep_view()) == recognize_all(
                all.subrange(0, i as int),
                results.subrange(0, i as int),
                inherit_agent,
                remove_marker_lines,
            ),
        decreases n - i,
    {
        let ghost top = rest[rest.len() - 1];
        let line = rest.pop().unwrap();
        proof {
            assert(line == top);
            assert(line.deep_view() == all[i as int]);
            let a = all.subrange(0, i + 1);
            let f = results.subrange(0, i + 1);
            assert(a.drop_last() == all.subrange(0, i as int));
            assert(f.drop_last() == results.subrange(0, i as int));
            assert(a.last() == all[i as int]);
            assert(f.last() == results[i as int]);
            assert(results[i as int] == found[i as int].deep_view());
        }
        match recognize_in_line(line, &found[i], &mut carry, inherit_agent, remove_marker_lines) {
            Some(kept) => push_model(lines, kept),
            None => {},
        }
        i += 1;
    }
    assert(all.subrange(0, n as int) == all);
    assert(results.subrange(0, n as int) == results);
}

/// Recognizes the agent of each line from a marker at its start.
///
/// Does nothing where the options disable it. Else the pattern is searched
/// for in the text of each line, and the lines are changed as
/// [`recognize_all`] says. Where the pattern does not compile, the error is
/// returned and the lines stay as they are.
pub fn recognize_agents(lines: &mut Vec<LyricLine>, options: &AgentRecognizerOptions) -> (r: Result<
    (),
    regex::Error,
>)
    ensures
        match recognized(old(lines).deep_view(), *options) {
            Some(after) => r is Ok && final(lines).deep_view() == after,
            None => r is Err && final(lines).deep_view() == old(lines).deep_view(),
        },
{
    if !options.enabled {
        return Ok(());
    }
    let pattern = get_agent_pattern(options);
    let ghost all = lines.deep_view();
    let ghost expected = searches(all, *options);
    let mut found: Vec<Groups> = Vec::new();
    let mut i: usize = 0;
    while i < lines.len()
        invariant
            i <= lines.len(),
            *lines == *old(lines),
            options.enabled,
            all == lines.deep_view(),
            expected == searches(all, *options),
            pattern@ == agent_pattern(*options),
            found.len() == i,
            forall|j: int| 0 <= j < i ==> (#[trigger] expected[j]) == Some(found[j].deep_view()),
        decreases lines.len() - i,
    {
        let text = get_line_text(&lines[i]);
        match regex_captures(pattern.as_str(), !options.case_sensitive, text.as_str()) {
            Ok(groups) => found.push(groups),
            Err(e) => {
                assert(expected[i as int] is None);
                assert(!all_searched(expected));
                return Err(e);
            },
        }
        i += 1;
    }
    assert(found.deep_view() =~= search_results(expected));
    apply_agent_matches(lines, &found, options.inherit_agent, options.remove_marker_lines);
    Ok(())
}

} // verus!
