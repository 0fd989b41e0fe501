//! The state that the parser carries from one event to the next.

use crate::types::{
    BackgroundModel, BackgroundSection, DefaultLanguageOptions, LineModel, LyricLine, LyricSyllable, MetadataEntry,
    MetadataEntryModel, RomanizationEntry, RomanizationModel, SyllableModel, TranslationEntry, TranslationModel,
};
use vstd::prelude::*;

verus! {

/// What a `span` element stands for.
#[derive(Debug, Clone, Copy, PartialEq, Eq, Structural)]
pub enum SpanRole {
    /// A syllable in a word-timed document, plain text in a line-timed one.
    Generic,
    /// A translation of the line.
    Translation,
    /// A romanization of the line.
    Romanization,
    /// A container whose generic spans are background syllables.
    Background,
}

/// An open `span` element.
#[derive(Debug, Clone)]
pub struct SpanContext {
    pub role: SpanRole,
    pub lang: Option<String>,
    pub scheme: Option<String>,
    pub start_ms: Option<u64>,
    pub end_ms: Option<u64>,
}

/// Model of a [`SpanContext`].
pub struct SpanModel {
    pub role: SpanRole,
    pub lang: Option<Seq<char>>,
    pub scheme: Option<Seq<char>>,
    pub start_ms: Option<u64>,
    pub end_ms: Option<u64>,
}

impl DeepView for SpanContext {
    type V = SpanModel;

    open spec fn deep_view(&self) -> SpanModel {
        SpanModel {
            role: self.role,
            lang: self.lang.deep_view(),
            scheme: self.scheme.deep_view(),
            start_ms: self.start_ms,
            end_ms: self.end_ms,
        }
    }
}

/// Whether the event before this one closed a span that made a syllable.
#[derive(Debug, Clone, Copy, PartialEq, Eq)]
pub enum LastSyllableInfo {
    NoSyllable,
    EndedSyllable { was_background: bool },
}

/// The paragraph that is being read.
#[derive(Debug, Clone)]
pub struct CurrentPElementData {
    pub start_ms: u64,
    pub end_ms: u64,
    pub agent: Option<String>,
    pub song_part: Option<String>,
    pub itunes_key: Option<String>,
    pub line_text_accumulator: String,
    pub syllables_accumulator: Vec<LyricSyllable>,
    pub translations_accumulator: Vec<TranslationEntry>,
    pub romanizations_accumulator: Vec<RomanizationEntry>,
    pub background_section_accumulator: Option<BackgroundSection>,
}

/// Model of a [`CurrentPElementData`].
pub struct ParagraphModel {
    pub start_ms: u64,
    pub end_ms: u64,
    pub agent: Option<Seq<char>>,
    pub song_part: Option<Seq<char>>,
    pub itunes_key: Option<Seq<char>>,
    pub line_text: Seq<char>,
    pub syllables: Seq<SyllableModel>,
    pub translations: Seq<TranslationModel>,
    pub romanizations: Seq<RomanizationModel>,
    pub background: Option<BackgroundModel>,
}

impl DeepView for CurrentPElementData {
    type V = ParagraphModel;

    open spec fn deep_view(&self) -> ParagraphModel {
        ParagraphModel {
            start_ms: self.start_ms,
            end_ms: self.end_ms,
            agent: self.agent.deep_view(),
            song_part: self.song_part.deep_view(),
            itunes_key: self.itunes_key.deep_view(),
            line_text: self.line_text_accumulator@,
            syllables: self.syllables_accumulator.deep_view(),
            translations: self.translations_accumulator.deep_view(),
            romanizations: self.romanizations_accumulator.deep_view(),
            background: self.background_section_accumulator.deep_view(),
        }
    }
}

/// A translation that the metadata gives for the paragraph with a given key.
#[derive(Debug, Clone)]
pub struct KeyedTranslation {
    pub key: String,
    pub text: String,
    pub lang: Option<String>,
}

/// Model of a [`KeyedTranslation`].
pub struct KeyedTranslationModel {
    pub key: Seq<char>,
    pub text: Seq<char>,
    pub lang: Option<Seq<char>>,
}

impl DeepView for KeyedTranslation {
    type V = KeyedTranslationModel;

    open spec fn deep_view(&self) -> KeyedTranslationModel {
        KeyedTranslationModel { key: self.key@, text: self.text@, lang: self.lang.deep_view() }
    }
}

/// Where the parser stands inside `metadata`.
#[derive(Debug, Clone)]
pub struct MetadataParseState {
    pub in_itunes_metadata: bool,
    pub in_am_translations: bool,
    pub in_am_translation: bool,
    pub current_am_translation_lang: Option<String>,
    /// One entry per key; a key that comes again replaces its entry.
    pub translation_map: Vec<KeyedTranslation>,
    pub in_songwriters_tag: bool,
    pub in_songwriter_tag: bool,
    pub current_songwriter_name: String,
    pub in_agent_tag: bool,
    pub in_agent_name_tag: bool,
    pub current_agent_id_for_name: Option<String>,
    pub current_agent_name_text: String,
    pub in_ttm_metadata_tag: bool,
    pub current_ttm_metadata_key: Option<String>,
}

/// Model of a [`MetadataParseState`].
pub struct MetadataModel {
    pub in_itunes_metadata: bool,
    pub in_am_translations: bool,
    pub in_am_translation: bool,
    pub current_am_translation_lang: Option<Seq<char>>,
    pub translation_map: Seq<KeyedTranslationModel>,
    pub in_songwriters_tag: bool,
    pub in_songwriter_tag: bool,
    pub current_songwriter_name: Seq<char>,
    pub in_agent_tag: bool,
    pub in_agent_name_tag: bool,
    pub current_agent_id_for_name: Option<Seq<char>>,
    pub current_agent_name_text: Seq<char>,
    pub in_ttm_metadata_tag: bool,
    pub current_ttm_metadata_key: Option<Seq<char>>,
}

impl DeepView for MetadataParseState {
    type V = MetadataModel;

    open spec fn deep_view(&self) -> MetadataModel {
        MetadataModel {
            in_itunes_metadata: self.in_itunes_metadata,
            in_am_translations: self.in_am_translations,
            in_am_translation: self.in_am_translation,
            current_am_translation_lang: self.current_am_translation_lang.deep_view(),
            translation_map: self.translation_map.deep_view(),
            in_songwriters_tag: self.in_songwriters_tag,
            in_songwriter_tag: self.in_songwriter_tag,
            current_songwriter_name: self.current_songwriter_name@,
            in_agent_tag: self.in_agent_tag,
            in_agent_name_tag: self.in_agent_name_tag,
            current_agent_id_for_name: self.current_agent_id_for_name.deep_view(),
            current_agent_name_text: self.current_agent_name_text@,
            in_ttm_metadata_tag: self.in_ttm_metadata_tag,
            current_ttm_metadata_key: self.current_ttm_metadata_key.deep_view(),
        }
    }
}

/// Where the parser stands inside `body`.
#[derive(Debug, Clone)]
pub struct BodyParseState {
    pub in_body: bool,
    pub in_div: bool,
    pub in_p: bool,
    pub current_div_song_part: Option<String>,
    pub current_p_element_data: Option<CurrentPElementData>,
    /// The open spans, innermost last.
    pub span_stack: Vec<SpanContext>,
    pub last_syllable_info: LastSyllableInfo,
}

/// Model of a [`BodyParseState`].
pub struct BodyModel {
    pub in_body: bool,
    pub in_div: bool,
    pub in_p: bool,
    pub current_div_song_part: Option<Seq<char>>,
    pub paragraph: Option<ParagraphModel>,
    pub span_stack: Seq<SpanModel>,
    pub last_syllable_info: LastSyllableInfo,
}

impl DeepView for BodyParseState {
    type V = BodyModel;

    open spec fn deep_view(&self) -> BodyModel {
        BodyModel {
            in_body: self.in_body,
            in_div: self.in_div,
            in_p: self.in_p,
            current_div_song_part: self.current_div_song_part.deep_view(),
            paragraph: self.current_p_element_data.deep_view(),
            span_stack: self.span_stack.deep_view(),
            last_syllable_info: self.last_syllable_info,
        }
    }
}

/// The whole state of a parse: where the parser stands, and what it has
/// produced so far.
#[derive(Debug, Clone)]
pub struct TtmlParserState {
    pub is_line_timing_mode: bool,
    pub detected_line_mode: bool,
    pub default_main_lang: Option<String>,
    pub default_translation_lang: Option<String>,
    pub default_romanization_lang: Option<String>,
    /// The `xml:id` values seen so far, each once.
    pub xml_ids: Vec<String>,
    /// The text of the innermost open span, or of the open metadata field.
    pub text_buffer: String,
    pub in_metadata_section: bool,
    pub metadata_state: MetadataParseState,
    pub body_state: BodyParseState,
    /// The lines emitted so far, in document order.
    pub lines: Vec<LyricLine>,
    /// The raw metadata recorded so far.
    pub raw_metadata: Vec<MetadataEntry>,
    /// The warnings raised so far.
    pub warnings: Vec<String>,
}

/// Model of a [`TtmlParserState`].
pub struct ParserModel {
    pub is_line_timing_mode: bool,
    pub detected_line_mode: bool,
    pub default_main_lang: Option<Seq<char>>,
    pub default_translation_lang: Option<Seq<char>>,
    pub default_romanization_lang: Option<Seq<char>>,
    pub xml_ids: Seq<Seq<char>>,
    pub text_buffer: Seq<char>,
    pub in_metadata_section: bool,
    pub metadata: MetadataModel,
    pub body: BodyModel,
    pub lines: Seq<LineModel>,
    pub raw_metadata: Seq<MetadataEntryModel>,
    pub warnings: Seq<Seq<char>>,
}

impl DeepView for TtmlParserState {
    type V = ParserModel;

    open spec fn deep_view(&self) -> ParserModel {
        ParserModel {
            is_line_timing_mode: self.is_line_timing_mode,
            detected_line_mode: self.detected_line_mode,
            default_main_lang: self.default_main_lang.deep_view(),
            default_translation_lang: self.default_translation_lang.deep_view(),
            default_romanization_lang: self.default_romanization_lang.deep_view(),
            xml_ids: self.xml_ids.deep_view(),
            text_buffer: self.text_buffer@,
            in_metadata_section: self.in_metadata_section,
            metadata: self.metadata_state.deep_view(),
            body: self.body_state.deep_view(),
            lines: self.lines.deep_view(),
            raw_metadata: self.raw_metadata.deep_view(),
            warnings: self.warnings.deep_view(),
        }
    }
}

/// The state before the first event.
pub open spec fn initial_model(
    main: Option<Seq<char>>,
    translation: Option<Seq<char>>,
    romanization: Option<Seq<char>>,
) -> ParserModel {
    ParserModel {
        is_line_timing_mode: false,
        detected_line_mode: false,
        default_main_lang: main,
        default_translation_lang: translation,
        default_romanization_lang: romanization,
        xml_ids: Seq::empty(),
        text_buffer: Seq::empty(),
        in_metadata_section: false,
        metadata: MetadataModel {
            in_itunes_metadata: false,
            in_am_translations: false,
            in_am_translation: false,
            current_am_translation_lang: None,
            translation_map: Seq::empty(),
            in_songwriters_tag: false,
            in_songwriter_tag: false,
            current_songwriter_name: Seq::empty(),
            in_agent_tag: false,
            in_agent_name_tag: false,
            current_agent_id_for_name: None,
            current_agent_name_text: Seq::empty(),
            in_ttm_metadata_tag: false,
            current_ttm_metadata_key: None,
        },
        body: BodyModel {
            in_body: false,
            in_div: false,
            in_p: false,
            current_div_song_part: None,
            paragraph: None,
            span_stack: Seq::empty(),
            last_syllable_info: LastSyllableInfo::NoSyllable,
        },
        lines: Seq::empty(),
        raw_metadata: Seq::empty(),
        warnings: Seq::empty(),
    }
}

impl TtmlParserState {
    /// The state before the first event, with the caller's default languages.
    pub fn new(default_languages: &DefaultLanguageOptions) -> (state: Self)
        ensures
            state.deep_view() == initial_model(
                default_languages.main.deep_view(),
                default_languages.translation.deep_view(),
                default_languages.romanization.deep_view(),
            ),
    {
        let state = TtmlParserState {
            is_line_timing_mode: false,
            detected_line_mode: false,
            default_main_lang: default_languages.main.clone(),
            default_translation_lang: default_languages.translation.clone(),
            default_romanization_lang: default_languages.romanization.clone(),
            xml_ids: Vec::new(),
            text_buffer: String::new(),
            in_metadata_section: false,
            metadata_state: MetadataParseState {
                in_itunes_metadata: false,
                in_am_translations: false,
                in_am_translation: false,
                current_am_translation_lang: None,
                translation_map: Vec::new(),
                in_songwriters_tag: false,
                in_songwriter_tag: false,
                current_songwriter_name: String::new(),
                in_agent_tag: false,
                in_agent_name_tag: false,
                current_agent_id_for_name: None,
                current_agent_name_text: String::new(),
                in_ttm_metadata_tag: false,
                current_ttm_metadata_key: None,
            },
            body_state: BodyParseState {
                in_body: false,
                in_div: false,
                in_p: false,
                current_div_song_part: None,
                current_p_element_data: None,
                span_stack: Vec::new(),
                last_syllable_info: LastSyllableInfo::NoSyllable,
            },
            lines: Vec::new(),
            raw_metadata: Vec::new(),
            warnings: Vec::new(),
        };
        assert(state.xml_ids.deep_view() =~= Seq::empty());
        assert(state.metadata_state.translation_map.deep_view() =~= Seq::empty());
        assert(state.body_state.span_stack.deep_view() =~= Seq::empty());
        assert(state.lines.deep_view() =~= Seq::empty());
        assert(state.raw_metadata.deep_view() =~= Seq::empty());
        assert(state.warnings.deep_view() =~= Seq::empty());
        state
    }
}

} // verus!
