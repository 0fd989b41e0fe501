//! The downstream adapter: from lines of annotated tracks to flat lines of
//! timed words.

use crate::lyric_optimizer::plus;
use crate::parser::finalize::{assemble, assemble_text};
use crate::parser::support::push_model;
use crate::text::{
    eq_ignore_ascii_case, index_of, lemma_index_of_is, str_eq, str_eq_ignore_ascii_case, trim_end, trim_end_text,
};
use crate::types::{LineModel, LyricLine, LyricSyllable, RomanizationEntry, RomanizationModel, SyllableModel, TranslationEntry, TranslationModel};
use vstd::prelude::*;

verus! {

/// What a track of a line holds.
#[derive(Debug, Clone, Copy, PartialEq, Eq, Hash, Structural)]
pub enum ContentType {
    /// The main vocals.
    Main,
    /// The background vocals.
    Background,
}

/// A word: one or more syllables.
#[derive(Debug, Default, Clone, PartialEq)]
pub struct Word {
    pub syllables: Vec<LyricSyllable>,
}

impl DeepView for Word {
    type V = Seq<SyllableModel>;

    open spec fn deep_view(&self) -> Seq<SyllableModel> {
        self.syllables.deep_view()
    }
}

/// A track: words, and the language they are in.
#[derive(Debug, Default, Clone, PartialEq)]
pub struct LyricTrack {
    pub words: Vec<Word>,
    pub language: Option<String>,
}

/// Model of a [`LyricTrack`].
pub struct TrackModel {
    pub words: Seq<Seq<SyllableModel>>,
    pub language: Option<Seq<char>>,
}

impl DeepView for LyricTrack {
    type V = TrackModel;

    open spec fn deep_view(&self) -> TrackModel {
        TrackModel { words: self.words.deep_view(), language: self.language.deep_view() }
    }
}

/// A track with its translations and romanizations.
#[derive(Debug, Clone, PartialEq)]
pub struct AnnotatedTrack {
    pub content_type: ContentType,
    pub content: LyricTrack,
    pub translations: Vec<LyricTrack>,
    pub romanizations: Vec<LyricTrack>,
}

/// Model of an [`AnnotatedTrack`].
pub struct AnnotatedTrackModel {
    pub content_type: ContentType,
    pub content: TrackModel,
    pub translations: Seq<TrackModel>,
    pub romanizations: Seq<TrackModel>,
}

impl DeepView for AnnotatedTrack {
    type V = AnnotatedTrackModel;

    open spec fn deep_view(&self) -> AnnotatedTrackModel {
        AnnotatedTrackModel {
            content_type: self.content_type,
            content: self.content.deep_view(),
            translations: self.translations.deep_view(),
            romanizations: self.romanizations.deep_view(),
        }
    }
}

/// A line as the adapter takes it: tracks, times and agent.
#[derive(Debug, Default, Clone, PartialEq)]
pub struct TrackLine {
    pub tracks: Vec<AnnotatedTrack>,
    pub start_ms: u64,
    pub end_ms: u64,
    pub agent: Option<String>,
}

/// Model of a [`TrackLine`].
pub struct TrackLineModel {
    pub tracks: Seq<AnnotatedTrackModel>,
    pub start_ms: u64,
    pub end_ms: u64,
    pub agent: Option<Seq<char>>,
}

impl DeepView for TrackLine {
    type V = TrackLineModel;

    open spec fn deep_view(&self) -> TrackLineModel {
        TrackLineModel {
            tracks: self.tracks.deep_view(),
            start_ms: self.start_ms,
            end_ms: self.end_ms,
            agent: self.agent.deep_view(),
        }
    }
}

/// A word of a flat line, with its times in milliseconds.
#[derive(Debug, Default, Clone, PartialEq)]
pub struct AmllWord {
    pub start_time: u64,
    pub end_time: u64,
    pub word: String,
    pub roman_word: String,
}

/// Model of an [`AmllWord`].
pub struct AmllWordModel {
    pub start_time: u64,
    pub end_time: u64,
    pub word: Seq<char>,
    pub roman_word: Seq<char>,
}

impl DeepView for AmllWord {
    type V = AmllWordModel;

    open spec fn deep_view(&self) -> AmllWordModel {
        AmllWordModel {
            start_time: self.start_time,
            end_time: self.end_time,
            word: self.word@,
            roman_word: self.roman_word@,
        }
    }
}

/// A flat line: words, translation, romanization, times and flags.
#[derive(Debug, Default, Clone, PartialEq)]
pub struct AmllLine {
    pub words: Vec<AmllWord>,
    pub translated_lyric: String,
    pub roman_lyric: String,
    pub start_time: u64,
    pub end_time: u64,
    pub is_bg: bool,
    pub is_duet: bool,
}

/// Model of an [`AmllLine`].
pub struct AmllLineModel {
    pub words: Seq<AmllWordModel>,
    pub translated_lyric: Seq<char>,
    pub roman_lyric: Seq<char>,
    pub start_time: u64,
    pub end_time: u64,
    pub is_bg: bool,
    pub is_duet: bool,
}

impl DeepView for AmllLine {
    type V = AmllLineModel;

    open spec fn deep_view(&self) -> AmllLineModel {
        AmllLineModel {
            words: self.words.deep_view(),
            translated_lyric: self.translated_lyric@,
            roman_lyric: self.roman_lyric@,
            start_time: self.start_time,
            end_time: self.end_time,
            is_bg: self.is_bg,
            is_duet: self.is_duet,
        }
    }
}

/// The syllables of the words, in order.
pub open spec fn flatten(words: Seq<Seq<SyllableModel>>) -> Seq<SyllableModel>
    decreases words.len(),
{
    if words.len() == 0 {
        Seq::<SyllableModel>::empty()
    } else {
        flatten(words.drop_last()) + words.last()
    }
}

/// The text of a track: what its syllables spell, without trailing whitespace.
pub open spec fn track_text(track: TrackModel) -> Seq<char> {
    trim_end(assemble(flatten(track.words)))
}

/// The time that two syllables share; not positive where they share none.
pub open spec fn overlap(a: SyllableModel, b: SyllableModel) -> int {
    let end = if a.end_ms <= b.end_ms { a.end_ms } else { b.end_ms };
    let start = if a.start_ms >= b.start_ms { a.start_ms } else { b.start_ms };
    end - start
}

/// The best match among the first `n` main syllables for a romanization
/// syllable, with the overlap it has: the first syllable with the largest
/// overlap, if that is positive.
pub open spec fn best_among(main: Seq<SyllableModel>, roman: SyllableModel, n: int) -> (Option<int>, int)
    decreases n,
{
    if n <= 0 {
        (None, 0)
    } else {
        let (best, most) = best_among(main, roman, n - 1);
        if overlap(main[n - 1], roman) > most {
            (Some(n - 1), overlap(main[n - 1], roman))
        } else {
            (best, most)
        }
    }
}

/// The main syllable that a romanization syllable belongs to, if any.
pub open spec fn best_match(main: Seq<SyllableModel>, roman: SyllableModel) -> Option<int> {
    best_among(main, roman, main.len() as int).0
}

/// The romanization of main syllable `i`: the texts of the romanization
/// syllables that belong to it, in order.
pub open spec fn roman_word(main: Seq<SyllableModel>, romans: Seq<SyllableModel>, i: int) -> Seq<char>
    decreases romans.len(),
{
    if romans.len() == 0 {
        Seq::<char>::empty()
    } else {
        let before = roman_word(main, romans.drop_last(), i);
        if best_match(main, romans.last()) == Some(i) {
            before + romans.last().text
        } else {
            before
        }
    }
}

/// The romanization syllables of a line: those of its first romanization
/// track.
pub open spec fn first_track_syllables(tracks: Seq<TrackModel>) -> Seq<SyllableModel> {
    if tracks.len() > 0 {
        flatten(tracks[0].words)
    } else {
        Seq::<SyllableModel>::empty()
    }
}

/// A romanization track of one syllable without times stands for the whole line.
pub open spec fn is_line_romanization(romans: Seq<SyllableModel>) -> bool {
    romans.len() == 1 && romans[0].start_ms == 0 && romans[0].end_ms == 0
}

/// The text of a word: that of its syllable, with a space where the syllable
/// ends with one.
pub open spec fn word_text(s: SyllableModel) -> Seq<char> {
    if s.ends_with_space {
        s.text + seq![' ']
    } else {
        s.text
    }
}

/// The word that main syllable `i` becomes. The only syllable of an
/// instrumental line lasts an hour.
pub open spec fn word_of(main: Seq<SyllableModel>, romans: Seq<SyllableModel>, instrumental: bool, i: int) -> AmllWordModel {
    AmllWordModel {
        start_time: main[i].start_ms,
        end_time: if instrumental {
            plus(main[i].start_ms, 3_600_000)
        } else {
            main[i].end_ms
        },
        word: word_text(main[i]),
        roman_word: roman_word(main, romans, i),
    }
}

/// The track is in the preferred language of translations, `zh-CN`.
pub open spec fn is_preferred(track: TrackModel) -> bool {
    track.language matches Some(l) && eq_ignore_ascii_case(l, "zh-CN"@)
}

/// Which tracks are in the preferred language.
pub open spec fn preferred_flags(tracks: Seq<TrackModel>) -> Seq<bool> {
    Seq::new(tracks.len(), |i: int| is_preferred(tracks[i]))
}

/// The translation of a line: the text of the first track in the preferred
/// language, or of the first track where there is none; empty where there
/// is no track, or where the text is `//`.
pub open spec fn chosen_translation(tracks: Seq<TrackModel>) -> Seq<char> {
    if tracks.len() == 0 {
        Seq::<char>::empty()
    } else {
        let i = index_of(preferred_flags(tracks), true);
        let text = if i < tracks.len() {
            track_text(tracks[i])
        } else {
            track_text(tracks[0])
        };
        if text == "//"@ {
            Seq::<char>::empty()
        } else {
            text
        }
    }
}

/// The words of a line.
pub open spec fn line_words(
    main: Seq<SyllableModel>,
    romanizations: Seq<TrackModel>,
    instrumental: bool,
) -> Seq<AmllWordModel> {
    let all = first_track_syllables(romanizations);
    let romans = if is_line_romanization(all) {
        Seq::<SyllableModel>::empty()
    } else {
        all
    };
    Seq::new(main.len(), |i: int| word_of(main, romans, instrumental, i))
}

/// The romanization of a line as a whole: the text of a romanization track
/// that stands for the whole line, else empty.
pub open spec fn line_romanization(romanizations: Seq<TrackModel>) -> Seq<char> {
    let all = first_track_syllables(romanizations);
    if is_line_romanization(all) {
        all[0].text
    } else {
        Seq::<char>::empty()
    }
}

/// The earliest start among the words; zero where there is none.
pub open spec fn first_start(words: Seq<AmllWordModel>) -> u64
    decreases words.len(),
{
    if words.len() == 0 {
        0
    } else if words.len() == 1 {
        words[0].start_time
    } else {
        let rest = first_start(words.drop_last());
        if words.last().start_time < rest {
            words.last().start_time
        } else {
            rest
        }
    }
}

/// The latest end among the words; zero where there is none.
pub open spec fn last_end(words: Seq<AmllWordModel>) -> u64
    decreases words.len(),
{
    if words.len() == 0 {
        0
    } else if words.len() == 1 {
        words[0].end_time
    } else {
        let rest = last_end(words.drop_last());
        if words.last().end_time > rest {
            words.last().end_time
        } else {
            rest
        }
    }
}

/// The flat line of a track, or `None` where the track has no syllable.
pub open spec fn track_line(track: AnnotatedTrackModel, instrumental: bool, is_bg: bool, is_duet: bool) -> Option<
    AmllLineModel,
> {
    let syllables = flatten(track.content.words);
    if syllables.len() == 0 {
        None
    } else {
        let words = line_words(syllables, track.romanizations, instrumental);
        Some(
            AmllLineModel {
                words: words,
                translated_lyric: chosen_translation(track.translations),
                roman_lyric: line_romanization(track.romanizations),
                start_time: first_start(words),
                end_time: last_end(words),
                is_bg: is_bg,
                is_duet: is_duet,
            },
        )
    }
}

/// Which tracks hold the given kind of content.
pub open spec fn kind_flags(tracks: Seq<AnnotatedTrackModel>, kind: ContentType) -> Seq<bool> {
    Seq::new(tracks.len(), |i: int| tracks[i].content_type == kind)
}

/// The first track of the given kind, if any.
pub open spec fn track_of_kind(tracks: Seq<AnnotatedTrackModel>, kind: ContentType) -> Option<AnnotatedTrackModel> {
    let i = index_of(kind_flags(tracks, kind), true);
    if i < tracks.len() {
        Some(tracks[i])
    } else {
        None
    }
}

/// The flat lines of one line: its main line, and its background line after
/// it. A main line ends no earlier than its background line.
pub open spec fn line_output(line: TrackLineModel, instrumental: bool, is_duet: bool) -> Seq<AmllLineModel> {
    let main = match track_of_kind(line.tracks, ContentType::Main) {
        Some(t) => track_line(t, instrumental, false, is_duet),
        None => None,
    };
    let background = match track_of_kind(line.tracks, ContentType::Background) {
        Some(t) => track_line(t, false, true, is_duet),
        None => None,
    };
    match (main, background) {
        (Some(m), Some(b)) => seq![
            AmllLineModel { end_time: if b.end_time > m.end_time { b.end_time } else { m.end_time }, ..m },
            b,
        ],
        (Some(m), None) => seq![m],
        (None, Some(b)) => seq![b],
        (None, None) => Seq::<AmllLineModel>::empty(),
    }
}

/// Whether a line is sung by a duet partner, and the agents seen afterwards.
///
/// A line without agent, of the soloist `v1` or of the chorus `v1000` is no
/// duet line; a line of `v2` is one. Any other agent is remembered when first
/// seen, and the agents so remembered alternate: the first is no duet
/// partner, the second is one, and so on.
pub open spec fn duet_of(agent: Option<Seq<char>>, seen: Seq<Seq<char>>) -> (bool, Seq<Seq<char>>) {
    match agent {
        None => (false, seen),
        Some(a) => if a == "v1000"@ || a == "v1"@ {
            (false, seen)
        } else if a == "v2"@ {
            (true, seen)
        } else {
            let i = index_of(seen, a);
            if i < seen.len() {
                (i % 2 == 1, seen)
            } else {
                (seen.len() % 2 == 1, seen.push(a))
            }
        },
    }
}

/// The document is one line with one main syllable: an instrumental piece.
pub open spec fn is_instrumental(lines: Seq<TrackLineModel>) -> bool {
    lines.len() == 1 && (track_of_kind(lines[0].tracks, ContentType::Main) matches Some(t) && flatten(
        t.content.words,
    ).len() == 1)
}

/// The flat lines of the first lines of a document, and the agents seen in them.
pub open spec fn converted(lines: Seq<TrackLineModel>, instrumental: bool) -> (Seq<AmllLineModel>, Seq<Seq<char>>)
    decreases lines.len(),
{
    if lines.len() == 0 {
        (Seq::<AmllLineModel>::empty(), Seq::<Seq<char>>::empty())
    } else {
        let (done, seen) = converted(lines.drop_last(), instrumental);
        let (duet, seen_after) = duet_of(lines.last().agent, seen);
        (done + line_output(lines.last(), instrumental, duet), seen_after)
    }
}

/// A copy of a syllable.
pub fn copy_syllable(s: &LyricSyllable) -> (r: LyricSyllable)
    ensures
        r.deep_view() == s.deep_view(),
{
    LyricSyllable {
        text: s.text.clone(),
        start_ms: s.start_ms,
        end_ms: s.end_ms,
        duration_ms: s.duration_ms,
        ends_with_space: s.ends_with_space,
    }
}

/// The syllables of a track, in order.
pub fn track_syllables(track: &LyricTrack) -> (r: Vec<LyricSyllable>)
    ensures
        r.deep_view() == flatten(track.deep_view().words),
{
    let ghost words = track.words.deep_view();
    let mut out: Vec<LyricSyllable> = Vec::new();
    let mut w: usize = 0;
    assert(out.deep_view() =~= flatten(words.subrange(0, 0)));
    while w < track.words.len()
        invariant
            w <= track.words.len(),
            words == track.words.deep_view(),
            out.deep_view() == flatten(words.subrange(0, w as int)),
        decreases track.words.len() - w,
    {
        let word = &track.words[w];
        let ghost base = out.deep_view();
        let mut k: usize = 0;
        while k < word.syllables.len()
            invariant
                k <= word.syllables.len(),
                out.deep_view() == base + word.syllables.deep_view().subrange(0, k as int),
            decreases word.syllables.len() - k,
        {
            let copy = copy_syllable(&word.syllables[k]);
            push_model(&mut out, copy);
            assert(out.deep_view() =~= base + word.syllables.deep_view().subrange(0, k + 1));
            k += 1;
        }
        proof {
            let next = words.subrange(0, w + 1);
            assert(next.drop_last() == words.subrange(0, w as int));
            assert(next.last() == words[w as int]);
            assert(word.syllables.deep_view().subrange(0, word.syllables.len() as int) == words[w as int]);
        }
        w += 1;
    }
    assert(words.subrange(0, track.words.len() as int) == words);
    out
}

/// The text of a track.
pub fn get_track_text(track: &LyricTrack) -> (r: String)
    ensures
        r@ == track_text(track.deep_view()),
{
    let syllables = track_syllables(track);
    let assembled = assemble_text(&syllables);
    trim_end_text(assembled.as_str())
}

/// An optional index as a mathematical integer.
pub open spec fn index_model(i: Option<usize>) -> Option<int> {
    match i {
        Some(x) => Some(x as int),
        None => None,
    }
}

/// The main syllable that a romanization syllable belongs to.
pub fn find_best_match(main: &Vec<LyricSyllable>, roman: &LyricSyllable) -> (r: Option<usize>)
    ensures
        index_model(r) == best_match(main.deep_view(), roman.deep_view()),
        r matches Some(i) ==> i < main.len(),
{
    let ghost m = main.deep_view();
    let ghost ro = roman.deep_view();
    let mut best: Option<usize> = None;
    let mut most: i128 = 0;
    let mut i: usize = 0;
    while i < main.len()
        invariant
            i <= main.len(),
            m == main.deep_view(),
            ro == roman.deep_view(),
            most == best_among(m, ro, i as int).1,
            index_model(best) == best_among(m, ro, i as int).0,
            best matches Some(b) ==> b < i,
        decreases main.len() - i,
    {
        let s = &main[i];
        let end: u64 = if s.end_ms <= roman.end_ms { s.end_ms } else { roman.end_ms };
        let start: u64 = if s.start_ms >= roman.start_ms { s.start_ms } else { roman.start_ms };
        let shared: i128 = end as i128 - start as i128;
        assert(shared == overlap(m[i as int], ro));
        if shared > most {
            most = shared;
            best = Some(i);
        }
        i += 1;
    }
    best
}

/// The romanization of one main syllable, from the best match of every
/// romanization syllable.
fn roman_word_of(main: &Vec<LyricSyllable>, romans: &Vec<LyricSyllable>, matches: &Vec<Option<usize>>, i: usize) -> (r:
    String)
    requires
        matches.len() == romans.len(),
        forall|k: int|
            0 <= k < romans.len() ==> index_model(#[trigger] matches[k]) == best_match(
                main.deep_view(),
                romans.deep_view()[k],
            ),
    ensures
        r@ == roman_word(main.deep_view(), romans.deep_view(), i as int),
{
    let ghost m = main.deep_view();
    let ghost all = romans.deep_view();
    let mut out = String::new();
    let mut k: usize = 0;
    while k < romans.len()
        invariant
            k <= romans.len(),
            matches.len() == romans.len(),
            m == main.deep_view(),
            all == romans.deep_view(),
            forall|j: int| 0 <= j < romans.len() ==> index_model(#[trigger] matches[j]) == best_match(m, all[j]),
            out@ == roman_word(m, all.subrange(0, k as int), i as int),
        decreases romans.len() - k,
    {
        proof {
            let next = all.subrange(0, k + 1);
            assert(next.drop_last() == all.subrange(0, k as int));
            assert(next.last() == all[k as int]);
        }
        let belongs = match matches[k] {
            Some(b) => b == i,
            None => false,
        };
        if belongs {
            out.append(romans[k].text.as_str());
        }
        k += 1;
    }
    assert(all.subrange(0, romans.len() as int) == all);
    out
}

/// Tells whether a track is in the preferred language of translations.
pub fn track_is_preferred(track: &LyricTrack) -> (r: bool)
    ensures
        r == is_preferred(track.deep_view()),
{
    match &track.language {
        Some(l) => str_eq_ignore_ascii_case(l.as_str(), "zh-CN"),
        None => false,
    }
}

/// The translation of a line.
pub fn choose_translation(translations: &Vec<LyricTrack>) -> (r: String)
    ensures
        r@ == chosen_translation(translations.deep_view()),
{
    if translations.len() == 0 {
        return String::new();
    }
    let ghost tracks = translations.deep_view();
    let ghost flags = preferred_flags(tracks);
    let mut i: usize = 0;
    while i < translations.len() && !track_is_preferred(&translations[i])
        invariant
            i <= translations.len(),
            tracks == translations.deep_view(),
            flags == preferred_flags(tracks),
            forall|j: int| 0 <= j < i ==> flags[j] != true,
        decreases translations.len() - i,
    {
        i += 1;
    }
    proof {
        lemma_index_of_is(flags, true, i as int);
    }
    let text = if i < translations.len() {
        get_track_text(&translations[i])
    } else {
        get_track_text(&translations[0])
    };
    if str_eq(text.as_str(), "//") {
        String::new()
    } else {
        text
    }
}

/// The words of a line, its translation and its romanization.
pub fn extract_line_components(
    syllables: &Vec<LyricSyllable>,
    translations: &Vec<LyricTrack>,
    romanizations: &Vec<LyricTrack>,
    is_instrumental: bool,
) -> (r: (Vec<AmllWord>, String, String))
    ensures
        r.0.deep_view() == line_words(syllables.deep_view(), romanizations.deep_view(), is_instrumental),
        r.1@ == chosen_translation(translations.deep_view()),
        r.2@ == line_romanization(romanizations.deep_view()),
{
    let ghost main = syllables.deep_view();
    let all: Vec<LyricSyllable> = if romanizations.len() > 0 {
        track_syllables(&romanizations[0])
    } else {
        let empty: Vec<LyricSyllable> = Vec::new();
        assert(empty.deep_view() =~= Seq::<SyllableModel>::empty());
        empty
    };
    let whole_line = all.len() == 1 && all[0].start_ms == 0 && all[0].end_ms == 0;
    assert(whole_line == is_line_romanization(all.deep_view()));
    let line_romanization = if whole_line { all[0].text.clone() } else { String::new() };
    let romans: Vec<LyricSyllable> = if whole_line {
        let empty: Vec<LyricSyllable> = Vec::new();
        assert(empty.deep_view() =~= Seq::<SyllableModel>::empty());
        empty
    } else {
        all
    };
    let mut matches: Vec<Option<usize>> = Vec::new();
    let mut k: usize = 0;
    while k < romans.len()
        invariant
            k <= romans.len(),
            matches.len() == k,
            main == syllables.deep_view(),
            forall|j: int|
                0 <= j < k ==> index_model(#[trigger] matches[j]) == best_match(main, romans.deep_view()[j]),
        decreases romans.len() - k,
    {
        let found = find_best_match(syllables, &romans[k]);
        matches.push(found);
        k += 1;
    }
    let mut words: Vec<AmllWord> = Vec::new();
    let mut i: usize = 0;
    let ghost target = line_words(main, romanizations.deep_view(), is_instrumental);
    while i < syllables.len()
        invariant
            i <= syllables.len(),
            matches.len() == romans.len(),
            main == syllables.deep_view(),
            target == Seq::new(main.len(), |i: int| word_of(main, romans.deep_view(), is_instrumental, i)),
            forall|j: int|
                0 <= j < romans.len() ==> index_model(#[trigger] matches[j]) == best_match(
                    main,
                    romans.deep_view()[j],
                ),
            words.len() == i,
            forall|j: int| 0 <= j < i ==> (#[trigger] words.deep_view()[j]) == target[j],
        decreases syllables.len() - i,
    {
        let s = &syllables[i];
        let mut word = s.text.clone();
        if s.ends_with_space {
            word.push(' ');
        }
        assert(word@ =~= word_text(main[i as int]));
        let end_time = if is_instrumental {
            if s.start_ms <= u64::MAX - 3_600_000 {
                s.start_ms + 3_600_000
            } else {
                u64::MAX
            }
        } else {
            s.end_ms
        };
        let roman = roman_word_of(syllables, &romans, &matches, i);
        let w = AmllWord { start_time: s.start_ms, end_time, word, roman_word: roman };
        assert(w.deep_view() == target[i as int]);
        push_model(&mut words, w);
        i += 1;
    }
    assert(words.deep_view() =~= target);
    (words, choose_translation(translations), line_romanization)
}

/// The earliest start and the latest end among the words.
pub fn word_window(words: &Vec<AmllWord>) -> (r: (u64, u64))
    ensures
        r.0 == first_start(words.deep_view()),
        r.1 == last_end(words.deep_view()),
{
    let ghost all = words.deep_view();
    if words.len() == 0 {
        return (0, 0);
    }
    let mut start: u64 = words[0].start_time;
    let mut end: u64 = words[0].end_time;
    let mut i: usize = 1;
    assert(all.subrange(0, 1)[0] == all[0]);
    while i < words.len()
        invariant
            1 <= i <= words.len(),
            all == words.deep_view(),
            start == first_start(all.subrange(0, i as int)),
            end == last_end(all.subrange(0, i as int)),
        decreases words.len() - i,
    {
        proof {
            let next = all.subrange(0, i + 1);
            assert(next.drop_last() == all.subrange(0, i as int));
            assert(next.last() == all[i as int]);
        }
        if words[i].start_time < start {
            start = words[i].start_time;
        }
        if words[i].end_time > end {
            end = words[i].end_time;
        }
        i += 1;
    }
    assert(all.subrange(0, words.len() as int) == all);
    (start, end)
}

/// The flat line of a track.
pub fn convert_track(track: &AnnotatedTrack, is_instrumental: bool, is_bg: bool, is_duet: bool) -> (r: Option<
    AmllLine,
>)
    ensures
        r.deep_view() == track_line(track.deep_view(), is_instrumental, is_bg, is_duet),
{
    let syllables = track_syllables(&track.content);
    if syllables.len() == 0 {
        return None;
    }
    let (words, translated_lyric, roman_lyric) = extract_line_components(
        &syllables,
        &track.translations,
        &track.romanizations,
        is_instrumental,
    );
    let (start_time, end_time) = word_window(&words);
    Some(AmllLine { words, translated_lyric, roman_lyric, start_time, end_time, is_bg, is_duet })
}

/// The position of the first track of the given kind, or the number of tracks.
pub fn find_track(tracks: &Vec<AnnotatedTrack>, kind: ContentType) -> (i: usize)
    ensures
        i <= tracks.len(),
        i == index_of(kind_flags(tracks.deep_view(), kind), true),
{
    let ghost flags = kind_flags(tracks.deep_view(), kind);
    let mut i: usize = 0;
    while i < tracks.len() && tracks[i].content_type != kind
        invariant
            i <= tracks.len(),
            flags == kind_flags(tracks.deep_view(), kind),
            forall|j: int| 0 <= j < i ==> flags[j] != true,
        decreases tracks.len() - i,
    {
        i += 1;
    }
    proof {
        lemma_index_of_is(flags, true, i as int);
    }
    i
}

/// Appends the flat lines of one line.
pub fn convert_line(line: &TrackLine, is_instrumental: bool, is_duet: bool, out: &mut Vec<AmllLine>)
    ensures
        final(out).deep_view() == old(out).deep_view() + line_output(line.deep_view(), is_instrumental, is_duet),
{
    let m = find_track(&line.tracks, ContentType::Main);
    let main = if m < line.tracks.len() {
        convert_track(&line.tracks[m], is_instrumental, false, is_duet)
    } else {
        None
    };
    let b = find_track(&line.tracks, ContentType::Background);
    let background = if b < line.tracks.len() {
        convert_track(&line.tracks[b], false, true, is_duet)
    } else {
        None
    };
    let ghost before = out.deep_view();
    match (main, background) {
        (Some(mut main_line), Some(bg_line)) => {
            if bg_line.end_time > main_line.end_time {
                main_line.end_time = bg_line.end_time;
            }
            push_model(out, main_line);
            push_model(out, bg_line);
        },
        (Some(main_line), None) => {
            push_model(out, main_line);
        },
        (None, Some(bg_line)) => {
            push_model(out, bg_line);
        },
        (None, None) => {},
    }
    assert(out.deep_view() =~= before + line_output(line.deep_view(), is_instrumental, is_duet));
}

/// Tells whether a line is sung by a duet partner, and remembers its agent.
pub fn duet_status(agent: &Option<String>, seen: &mut Vec<String>) -> (r: bool)
    ensures
        (r, final(seen).deep_view()) == duet_of(agent.deep_view(), old(seen).deep_view()),
{
    match agent {
        None => false,
        Some(a) => {
            if str_eq(a.as_str(), "v1000") || str_eq(a.as_str(), "v1") {
                false
            } else if str_eq(a.as_str(), "v2") {
                true
            } else {
                let n = seen.len();
                let mut i: usize = 0;
                while i < n && !str_eq(seen[i].as_str(), a.as_str())
                    invariant
                        i <= n == seen.len(),
                        *seen == *old(seen),
                        forall|j: int| 0 <= j < i ==> seen.deep_view()[j] != a@,
                    decreases n - i,
                {
                    i += 1;
                }
                proof {
                    lemma_index_of_is(seen.deep_view(), a@, i as int);
                }
                if i < n {
                    i % 2 == 1
                } else {
                    push_model(seen, a.clone());
                    n % 2 == 1
                }
            }
        },
    }
}

/// Tells whether the document is an instrumental piece.
pub fn detect_instrumental(lines: &Vec<TrackLine>) -> (r: bool)
    ensures
        r == is_instrumental(lines.deep_view()),
{
    if lines.len() != 1 {
        return false;
    }
    let m = find_track(&lines[0].tracks, ContentType::Main);
    if m < lines[0].tracks.len() {
        let syllables = track_syllables(&lines[0].tracks[m].content);
        syllables.len() == 1
    } else {
        false
    }
}

/// Flattens the lines of a document: each line becomes its main line and,
/// after it, its background line, where it has them.
pub fn convert_to_amll_lyrics(lines: &Vec<TrackLine>) -> (r: Vec<AmllLine>)
    ensures
        r.deep_view() == converted(lines.deep_view(), is_instrumental(lines.deep_view())).0,
{
    let ghost all = lines.deep_view();
    let instrumental = detect_instrumental(lines);
    let mut seen: Vec<String> = Vec::new();
    let mut out: Vec<AmllLine> = Vec::new();
    let mut i: usize = 0;
    assert(out.deep_view() =~= Seq::<AmllLineModel>::empty());
    assert(seen.deep_view() =~= Seq::<Seq<char>>::empty());
    while i < lines.len()
        invariant
            i <= lines.len(),
            all == lines.deep_view(),
            (out.deep_view(), seen.deep_view()) == converted(all.subrange(0, i as int), instrumental),
        decreases lines.len() - i,
    {
        proof {
            let next = all.subrange(0, i + 1);
            assert(next.drop_last() == all.subrange(0, i as int));
            assert(next.last() == all[i as int]);
        }
        let duet = duet_status(&lines[i].agent, &mut seen);
        convert_line(&lines[i], instrumental, duet, &mut out);
        i += 1;
    }
    assert(all.subrange(0, lines.len() as int) == all);
    out
}

/// The track of one syllable without times that holds a text as a whole.
pub open spec fn text_track(text: Seq<char>, language: Option<Seq<char>>) -> TrackModel {
    TrackModel {
        words: seq![
            seq![
                SyllableModel { text: text, start_ms: 0, end_ms: 0, duration_ms: None, ends_with_space: false },
            ],
        ],
        language: language,
    }
}

/// The track of syllables, one word for each.
pub open spec fn syllable_track(syllables: Seq<SyllableModel>) -> TrackModel {
    TrackModel { words: Seq::new(syllables.len(), |i: int| seq![syllables[i]]), language: None }
}

/// The tracks of translations, one for each entry.
pub open spec fn translation_tracks(entries: Seq<TranslationModel>) -> Seq<TrackModel> {
    Seq::new(entries.len(), |i: int| text_track(entries[i].text, entries[i].lang))
}

/// The tracks of romanizations, one for each entry.
pub open spec fn romanization_tracks(entries: Seq<RomanizationModel>) -> Seq<TrackModel> {
    Seq::new(entries.len(), |i: int| text_track(entries[i].text, entries[i].lang))
}

/// A parsed line as the adapter takes it: a main track of its syllables,
/// with its translations and romanizations as tracks of one untimed
/// syllable each, and a background track made the same way from its
/// background section, if it has one.
pub open spec fn line_tracks(line: LineModel) -> TrackLineModel {
    let main = AnnotatedTrackModel {
        content_type: ContentType::Main,
        content: syllable_track(line.main_syllables),
        translations: translation_tracks(line.translations),
        romanizations: romanization_tracks(line.romanizations),
    };
    TrackLineModel {
        tracks: match line.background_section {
            Some(bg) => seq![
                main,
                AnnotatedTrackModel {
                    content_type: ContentType::Background,
                    content: syllable_track(bg.syllables),
                    translations: translation_tracks(bg.translations),
                    romanizations: romanization_tracks(bg.romanizations),
                },
            ],
            None => seq![main],
        },
        start_ms: line.start_ms,
        end_ms: line.end_ms,
        agent: line.agent,
    }
}

/// The track of one syllable without times that holds a text as a whole.
pub fn make_text_track(text: &String, language: &Option<String>) -> (r: LyricTrack)
    ensures
        r.deep_view() == text_track(text@, language.deep_view()),
{
    let syllable = LyricSyllable {
        text: text.clone(),
        start_ms: 0,
        end_ms: 0,
        duration_ms: None,
        ends_with_space: false,
    };
    let mut syllables: Vec<LyricSyllable> = Vec::new();
    syllables.push(syllable);
    let mut words: Vec<Word> = Vec::new();
    words.push(Word { syllables });
    let track = LyricTrack { words, language: language.clone() };
    assert(track.words[0].deep_view() =~= seq![syllable.deep_view()]);
    assert(track.deep_view().words =~= text_track(text@, language.deep_view()).words);
    track
}

/// The track of syllables, one word for each.
pub fn make_syllable_track(syllables: &Vec<LyricSyllable>) -> (r: LyricTrack)
    ensures
        r.deep_view() == syllable_track(syllables.deep_view()),
{
    let ghost all = syllables.deep_view();
    let mut words: Vec<Word> = Vec::new();
    let mut i: usize = 0;
    while i < syllables.len()
        invariant
            i <= syllables.len(),
            all == syllables.deep_view(),
            words.len() == i,
            forall|j: int| 0 <= j < i ==> (#[trigger] words.deep_view()[j]) == seq![all[j]],
        decreases syllables.len() - i,
    {
        let mut one: Vec<LyricSyllable> = Vec::new();
        one.push(copy_syllable(&syllables[i]));
        let word = Word { syllables: one };
        assert(word.deep_view() =~= seq![all[i as int]]);
        push_model(&mut words, word);
        i += 1;
    }
    let track = LyricTrack { words, language: None };
    assert(track.deep_view().words =~= syllable_track(all).words);
    track
}

/// The tracks of translations.
pub fn make_translation_tracks(entries: &Vec<TranslationEntry>) -> (r: Vec<LyricTrack>)
    ensures
        r.deep_view() == translation_tracks(entries.deep_view()),
{
    let mut tracks: Vec<LyricTrack> = Vec::new();
    let mut i: usize = 0;
    while i < entries.len()
        invariant
            i <= entries.len(),
            tracks.len() == i,
            forall|j: int|
                0 <= j < i ==> (#[trigger] tracks.deep_view()[j]) == text_track(
                    entries.deep_view()[j].text,
                    entries.deep_view()[j].lang,
                ),
        decreases entries.len() - i,
    {
        let track = make_text_track(&entries[i].text, &entries[i].lang);
        push_model(&mut tracks, track);
        i += 1;
    }
    assert(tracks.deep_view() =~= translation_tracks(entries.deep_view()));
    tracks
}

/// The tracks of romanizations.
pub fn make_romanization_tracks(entries: &Vec<RomanizationEntry>) -> (r: Vec<LyricTrack>)
    ensures
        r.deep_view() == romanization_tracks(entries.deep_view()),
{
    let mut tracks: Vec<LyricTrack> = Vec::new();
    let mut i: usize = 0;
    while i < entries.len()
        invariant
            i <= entries.len(),
            tracks.len() == i,
            forall|j: int|
                0 <= j < i ==> (#[trigger] tracks.deep_view()[j]) == text_track(
                    entries.deep_view()[j].text,
                    entries.deep_view()[j].lang,
                ),
        decreases entries.len() - i,
    {
        let track = make_text_track(&entries[i].text, &entries[i].lang);
        push_model(&mut tracks, track);
        i += 1;
    }
    assert(tracks.deep_view() =~= romanization_tracks(entries.deep_view()));
    tracks
}

/// Turns a parsed line into the form that the adapter takes.
pub fn tracks_of_line(line: &LyricLine) -> (r: TrackLine)
    ensures
        r.deep_view() == line_tracks(line.deep_view()),
{
    let main = AnnotatedTrack {
        content_type: ContentType::Main,
        content: make_syllable_track(&line.main_syllables),
        translations: make_translation_tracks(&line.translations),
        romanizations: make_romanization_tracks(&line.romanizations),
    };
    let ghost main_model = main.deep_view();
    let mut tracks: Vec<AnnotatedTrack> = Vec::new();
    tracks.push(main);
    match &line.background_section {
        Some(bg) => {
            let background = AnnotatedTrack {
                content_type: ContentType::Background,
                content: make_syllable_track(&bg.syllables),
                translations: make_translation_tracks(&bg.translations),
                romanizations: make_romanization_tracks(&bg.romanizations),
            };
            let ghost background_model = background.deep_view();
            tracks.push(background);
            assert(tracks.deep_view() =~= seq![main_model, background_model]);
        },
        None => {
            assert(tracks.deep_view() =~= seq![main_model]);
        },
    }
    TrackLine { tracks, start_ms: line.start_ms, end_ms: line.end_ms, agent: line.agent.clone() }
}

/// The parsed lines in the form that the adapter takes.
pub open spec fn lines_tracks(lines: Seq<LineModel>) -> Seq<TrackLineModel> {
    Seq::new(lines.len(), |i: int| line_tracks(lines[i]))
}

/// Flattens parsed lines: each line becomes its main line and, after it,
/// its background line, where it has them.
pub fn convert_lines(lines: &Vec<LyricLine>) -> (r: Vec<AmllLine>)
    ensures
        r.deep_view() == converted(
            lines_tracks(lines.deep_view()),
            is_instrumental(lines_tracks(lines.deep_view())),
        ).0,
{
    let mut tracks: Vec<TrackLine> = Vec::new();
    let mut i: usize = 0;
    while i < lines.len()
        invariant
            i <= lines.len(),
            tracks.len() == i,
            forall|j: int| 0 <= j < i ==> (#[trigger] tracks.deep_view()[j]) == line_tracks(lines.deep_view()[j]),
        decreases lines.len() - i,
    {
        let t = tracks_of_line(&lines[i]);
        push_model(&mut tracks, t);
        i += 1;
    }
    assert(tracks.deep_view() =~= lines_tracks(lines.deep_view()));
    convert_to_amll_lyrics(&tracks)
}

} // verus!
