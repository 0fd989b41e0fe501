//! The lyric data model and the mathematical view of each of its types.
//!
//! Every executable type has a model made of sequences and integers, reached
//! with `deep_view()`. Contracts across the crate are stated over the models.

use crate::text::{eq_ignore_ascii_case, str_eq_ignore_ascii_case};
use vstd::prelude::*;

verus! {

/// The source format of a parsed document.
#[derive(Debug, Clone, Copy, PartialEq, Eq, Hash)]
pub enum LyricFormat {
    /// Timed Text Markup Language.
    Ttml,
}

impl LyricFormat {
    /// The name of the format.
    pub open spec fn name(self) -> Seq<char> {
        "TTML"@
    }

    /// The name of the format, as it is shown.
    pub fn to_string(&self) -> (r: String)
        ensures
            r@ == self.name(),
    {
        String::from_str("TTML")
    }

    /// The format that a name stands for, whatever the case of its letters.
    pub fn from_name(name: &str) -> (r: Option<LyricFormat>)
        ensures
            r == (if eq_ignore_ascii_case(name@, "ttml"@) {
                Some(LyricFormat::Ttml)
            } else {
                None
            }),
    {
        if str_eq_ignore_ascii_case(name, "ttml") {
            Some(LyricFormat::Ttml)
        } else {
            None
        }
    }
}

impl Default for LyricFormat {
    fn default() -> (r: Self)
        ensures
            r == LyricFormat::Ttml,
    {
        LyricFormat::Ttml
    }
}

/// A timed text fragment, typically one sung unit.
#[derive(Debug, Default, Clone, PartialEq)]
pub struct LyricSyllable {
    pub text: String,
    pub start_ms: u64,
    pub end_ms: u64,
    pub duration_ms: Option<u64>,
    pub ends_with_space: bool,
}

/// Model of a [`LyricSyllable`].
pub struct SyllableModel {
    pub text: Seq<char>,
    pub start_ms: u64,
    pub end_ms: u64,
    pub duration_ms: Option<u64>,
    pub ends_with_space: bool,
}

impl DeepView for LyricSyllable {
    type V = SyllableModel;

    open spec fn deep_view(&self) -> SyllableModel {
        SyllableModel {
            text: self.text@,
            start_ms: self.start_ms,
            end_ms: self.end_ms,
            duration_ms: self.duration_ms,
            ends_with_space: self.ends_with_space,
        }
    }
}

impl SyllableModel {
    /// The length of the syllable, zero when its end lies before its start.
    pub open spec fn duration(self) -> int {
        if self.end_ms >= self.start_ms {
            self.end_ms - self.start_ms
        } else {
            0
        }
    }
}

/// A translation of a line, with the language it is written in.
#[derive(Debug, Default, Clone, PartialEq)]
pub struct TranslationEntry {
    pub text: String,
    pub lang: Option<String>,
}

/// Model of a [`TranslationEntry`].
pub struct TranslationModel {
    pub text: Seq<char>,
    pub lang: Option<Seq<char>>,
}

impl DeepView for TranslationEntry {
    type V = TranslationModel;

    open spec fn deep_view(&self) -> TranslationModel {
        TranslationModel { text: self.text@, lang: self.lang.deep_view() }
    }
}

/// A phonetic transliteration of a line.
#[derive(Debug, Default, Clone, PartialEq)]
pub struct RomanizationEntry {
    pub text: String,
    pub lang: Option<String>,
    pub scheme: Option<String>,
}

/// Model of a [`RomanizationEntry`].
pub struct RomanizationModel {
    pub text: Seq<char>,
    pub lang: Option<Seq<char>>,
    pub scheme: Option<Seq<char>>,
}

impl DeepView for RomanizationEntry {
    type V = RomanizationModel;

    open spec fn deep_view(&self) -> RomanizationModel {
        RomanizationModel {
            text: self.text@,
            lang: self.lang.deep_view(),
            scheme: self.scheme.deep_view(),
        }
    }
}

/// A parallel layer of syllables that accompanies a main line.
#[derive(Debug, Default, Clone, PartialEq)]
pub struct BackgroundSection {
    pub start_ms: u64,
    pub end_ms: u64,
    pub syllables: Vec<LyricSyllable>,
    pub translations: Vec<TranslationEntry>,
    pub romanizations: Vec<RomanizationEntry>,
}

/// Model of a [`BackgroundSection`].
pub struct BackgroundModel {
    pub start_ms: u64,
    pub end_ms: u64,
    pub syllables: Seq<SyllableModel>,
    pub translations: Seq<TranslationModel>,
    pub romanizations: Seq<RomanizationModel>,
}

impl DeepView for BackgroundSection {
    type V = BackgroundModel;

    open spec fn deep_view(&self) -> BackgroundModel {
        BackgroundModel {
            start_ms: self.start_ms,
            end_ms: self.end_ms,
            syllables: self.syllables.deep_view(),
            translations: self.translations.deep_view(),
            romanizations: self.romanizations.deep_view(),
        }
    }
}

/// One lyric line.
#[derive(Debug, Default, Clone, PartialEq)]
pub struct LyricLine {
    pub start_ms: u64,
    pub end_ms: u64,
    pub line_text: Option<String>,
    pub main_syllables: Vec<LyricSyllable>,
    pub translations: Vec<TranslationEntry>,
    pub romanizations: Vec<RomanizationEntry>,
    pub agent: Option<String>,
    pub background_section: Option<BackgroundSection>,
    pub song_part: Option<String>,
    pub itunes_key: Option<String>,
}

/// Model of a [`LyricLine`].
pub struct LineModel {
    pub start_ms: u64,
    pub end_ms: u64,
    pub line_text: Option<Seq<char>>,
    pub main_syllables: Seq<SyllableModel>,
    pub translations: Seq<TranslationModel>,
    pub romanizations: Seq<RomanizationModel>,
    pub agent: Option<Seq<char>>,
    pub background_section: Option<BackgroundModel>,
    pub song_part: Option<Seq<char>>,
    pub itunes_key: Option<Seq<char>>,
}

impl DeepView for LyricLine {
    type V = LineModel;

    open spec fn deep_view(&self) -> LineModel {
        LineModel {
            start_ms: self.start_ms,
            end_ms: self.end_ms,
            line_text: self.line_text.deep_view(),
            main_syllables: self.main_syllables.deep_view(),
            translations: self.translations.deep_view(),
            romanizations: self.romanizations.deep_view(),
            agent: self.agent.deep_view(),
            background_section: self.background_section.deep_view(),
            song_part: self.song_part.deep_view(),
            itunes_key: self.itunes_key.deep_view(),
        }
    }
}

/// Every syllable of the sequence ends no earlier than it starts.
pub open spec fn syllables_ordered(syllables: Seq<SyllableModel>) -> bool {
    forall|i: int| 0 <= i < syllables.len() ==> (#[trigger] syllables[i]).end_ms >= syllables[i].start_ms
}

/// The last syllable of the sequence, if there is one, is not followed by a space.
pub open spec fn last_closes(syllables: Seq<SyllableModel>) -> bool {
    syllables.len() > 0 ==> !syllables.last().ends_with_space
}

impl LineModel {
    /// What holds of every line that the parser emits: syllables are not
    /// inverted, the last syllable of each layer carries no trailing space, and
    /// the line has an agent.
    pub open spec fn well_formed(self) -> bool {
        &&& syllables_ordered(self.main_syllables)
        &&& last_closes(self.main_syllables)
        &&& self.agent is Some
        &&& self.background_section matches Some(bg) ==> {
            &&& syllables_ordered(bg.syllables)
            &&& last_closes(bg.syllables)
        }
    }
}

/// One raw metadata key with the values recorded under it, in document order.
#[derive(Debug, Default, Clone, PartialEq)]
pub struct MetadataEntry {
    pub key: String,
    pub values: Vec<String>,
}

/// Model of a [`MetadataEntry`].
pub struct MetadataEntryModel {
    pub key: Seq<char>,
    pub values: Seq<Seq<char>>,
}

impl DeepView for MetadataEntry {
    type V = MetadataEntryModel;

    open spec fn deep_view(&self) -> MetadataEntryModel {
        MetadataEntryModel { key: self.key@, values: self.values.deep_view() }
    }
}

/// The result of parsing one document.
#[derive(Debug, Default, Clone, PartialEq)]
pub struct ParsedSourceData {
    pub lines: Vec<LyricLine>,
    /// Raw metadata, one entry per key in order of first appearance.
    pub raw_metadata: Vec<MetadataEntry>,
    pub source_format: LyricFormat,
    pub source_filename: Option<String>,
    pub is_line_timed_source: bool,
    pub warnings: Vec<String>,
    pub raw_ttml_from_input: Option<String>,
    pub detected_formatted_ttml_input: Option<bool>,
}

/// Model of a [`ParsedSourceData`].
pub struct ParsedModel {
    pub lines: Seq<LineModel>,
    pub raw_metadata: Seq<MetadataEntryModel>,
    pub source_format: LyricFormat,
    pub source_filename: Option<Seq<char>>,
    pub is_line_timed_source: bool,
    pub warnings: Seq<Seq<char>>,
    pub raw_ttml_from_input: Option<Seq<char>>,
    pub detected_formatted_ttml_input: Option<bool>,
}

impl DeepView for ParsedSourceData {
    type V = ParsedModel;

    open spec fn deep_view(&self) -> ParsedModel {
        ParsedModel {
            lines: self.lines.deep_view(),
            raw_metadata: self.raw_metadata.deep_view(),
            source_format: self.source_format,
            source_filename: self.source_filename.deep_view(),
            is_line_timed_source: self.is_line_timed_source,
            warnings: self.warnings.deep_view(),
            raw_ttml_from_input: self.raw_ttml_from_input.deep_view(),
            detected_formatted_ttml_input: self.detected_formatted_ttml_input,
        }
    }
}

/// Languages assumed where the document names none.
#[derive(Debug, Clone, Default)]
pub struct DefaultLanguageOptions {
    pub main: Option<String>,
    pub translation: Option<String>,
    pub romanization: Option<String>,
}

} // verus!
