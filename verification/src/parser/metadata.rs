//! The `metadata` section of a document.

use crate::error::ConvertError;
use crate::parser::attrs::{agrees, 
    attr_raw, attr_text, get_raw, get_text, is_failure, raw_text, step_agrees, text_of_raw, Failure,
};
use crate::parser::body::{warn, with_warning};
use crate::parser::state::{KeyedTranslation, KeyedTranslationModel, MetadataModel, ParserModel, TtmlParserState};
use crate::parser::support::{
    append_metadata, concat3, contains_string, has_prefix, local_name, get_local_name_str, push_metadata, push_model,
    put_translation, store_translation, str_starts_with,
};
use crate::text::{normalize_text_whitespace, normalize_whitespace, str_eq, trim, trim_text};
use crate::xml::XmlTag;
use vstd::prelude::*;

verus! {

/// The state with another metadata sub-state.
pub open spec fn with_metadata(m: ParserModel, metadata: MetadataModel) -> ParserModel {
    ParserModel { metadata: metadata, ..m }
}

/// The state with one more value under a key of the raw metadata.
pub open spec fn with_raw_metadata(m: ParserModel, key: Seq<char>, value: Seq<char>) -> ParserModel {
    ParserModel { raw_metadata: append_metadata(m.raw_metadata, key, value), ..m }
}

/// A step that may ask for the text inside the element just opened agrees
/// with the expected one.
pub open spec fn asking_step_agrees(
    r: Result<Option<String>, ConvertError>,
    after: ParserModel,
    expected: Result<(ParserModel, Option<Seq<char>>), Failure>,
) -> bool {
    match expected {
        Ok((m, asked)) => r matches Ok(a) && a.deep_view() == asked && after == m,
        Err(f) => r matches Err(e) && is_failure(e, f),
    }
}

/// The elements that the metadata rules tell apart, by local name.
#[derive(Debug, Clone, Copy, PartialEq, Eq, Structural)]
pub enum MetadataTag {
    Meta,
    ItunesMetadata,
    Translations,
    Translation,
    Text,
    Songwriters,
    Songwriter,
    Agent,
    Name,
    Other,
}

/// The element that a local name stands for.
pub open spec fn metadata_tag(local: Seq<char>) -> MetadataTag {
    if local == "meta"@ {
        MetadataTag::Meta
    } else if local == "iTunesMetadata"@ {
        MetadataTag::ItunesMetadata
    } else if local == "translations"@ {
        MetadataTag::Translations
    } else if local == "translation"@ {
        MetadataTag::Translation
    } else if local == "text"@ {
        MetadataTag::Text
    } else if local == "songwriters"@ {
        MetadataTag::Songwriters
    } else if local == "songwriter"@ {
        MetadataTag::Songwriter
    } else if local == "agent"@ {
        MetadataTag::Agent
    } else if local == "name"@ {
        MetadataTag::Name
    } else {
        MetadataTag::Other
    }
}

/// Tells which element a local name stands for.
pub fn classify_metadata_tag(local: &str) -> (r: MetadataTag)
    ensures
        r == metadata_tag(local@),
{
    if str_eq(local, "meta") {
        MetadataTag::Meta
    } else if str_eq(local, "iTunesMetadata") {
        MetadataTag::ItunesMetadata
    } else if str_eq(local, "translations") {
        MetadataTag::Translations
    } else if str_eq(local, "translation") {
        MetadataTag::Translation
    } else if str_eq(local, "text") {
        MetadataTag::Text
    } else if str_eq(local, "songwriters") {
        MetadataTag::Songwriters
    } else if str_eq(local, "songwriter") {
        MetadataTag::Songwriter
    } else if str_eq(local, "agent") {
        MetadataTag::Agent
    } else if str_eq(local, "name") {
        MetadataTag::Name
    } else {
        MetadataTag::Other
    }
}

/// The character that one of the five predefined entities stands for.
pub open spec fn entity_char(name: Seq<char>) -> Option<char> {
    if name == "amp"@ {
        Some('&')
    } else if name == "lt"@ {
        Some('<')
    } else if name == "gt"@ {
        Some('>')
    } else if name == "quot"@ {
        Some('"')
    } else if name == "apos"@ {
        Some('\'')
    } else {
        None
    }
}

/// The character that one of the five predefined entities stands for.
pub fn decode_entity(name: &str) -> (r: Option<char>)
    ensures
        r == entity_char(name@),
{
    if str_eq(name, "amp") {
        Some('&')
    } else if str_eq(name, "lt") {
        Some('<')
    } else if str_eq(name, "gt") {
        Some('>')
    } else if str_eq(name, "quot") {
        Some('"')
    } else if str_eq(name, "apos") {
        Some('\'')
    } else {
        None
    }
}

/// The warning for an entity that is not predefined, inside the metadata.
pub open spec fn metadata_entity_warning(name: Seq<char>) -> Seq<char> {
    "unknown XML entity '&"@ + name + ";' in the metadata is ignored"@
}

/// The warning for an `xml:id` that was seen before.
pub open spec fn duplicate_id_warning(id: Seq<char>) -> Seq<char> {
    "the xml:id '"@ + id + "' occurs more than once"@
}

/// The state with text added to the metadata field that is open: the name
/// of a songwriter, the name of an agent, or a `ttm:` field, in this order.
pub open spec fn metadata_text(m: ParserModel, text: Seq<char>) -> ParserModel {
    if m.metadata.in_songwriter_tag {
        with_metadata(
            m,
            MetadataModel { current_songwriter_name: m.metadata.current_songwriter_name + text, ..m.metadata },
        )
    } else if m.metadata.in_agent_name_tag {
        with_metadata(
            m,
            MetadataModel { current_agent_name_text: m.metadata.current_agent_name_text + text, ..m.metadata },
        )
    } else if m.metadata.in_ttm_metadata_tag {
        ParserModel { text_buffer: m.text_buffer + text, ..m }
    } else {
        m
    }
}

/// Handles character data inside the metadata.
pub fn handle_metadata_text_event(text: &str, state: &mut TtmlParserState)
    ensures
        final(state).deep_view() == metadata_text(old(state).deep_view(), text@),
{
    if state.metadata_state.in_songwriter_tag {
        state.metadata_state.current_songwriter_name.append(text);
    } else if state.metadata_state.in_agent_name_tag {
        state.metadata_state.current_agent_name_text.append(text);
    } else if state.metadata_state.in_ttm_metadata_tag {
        state.text_buffer.append(text);
    }
}

/// What an entity reference inside the metadata does: a predefined entity
/// adds its character to the open field, any other is dropped with a warning.
pub open spec fn metadata_reference(m: ParserModel, name: Seq<char>) -> ParserModel {
    match entity_char(name) {
        Some(c) => metadata_text(m, seq![c]),
        None => with_warning(m, metadata_entity_warning(name)),
    }
}

/// Handles an entity reference inside the metadata.
pub fn handle_metadata_reference(name: &str, state: &mut TtmlParserState)
    ensures
        final(state).deep_view() == metadata_reference(old(state).deep_view(), name@),
{
    match decode_entity(name) {
        Some(c) => {
            let mut one = String::new();
            one.push(c);
            assert(one@ =~= seq![c]);
            handle_metadata_text_event(one.as_str(), state);
        },
        None => {
            warn(state, concat3("unknown XML entity '&", name, ";' in the metadata is ignored"));
        },
    }
}

/// The state after an `xml:id` was seen: a new one is remembered, one seen
/// before raises a warning, an empty one is passed over.
pub open spec fn store_xml_id(m: ParserModel, id: Seq<char>) -> ParserModel {
    if id.len() == 0 {
        m
    } else if m.xml_ids.contains(id) {
        with_warning(m, duplicate_id_warning(id))
    } else {
        ParserModel { xml_ids: m.xml_ids.push(id), ..m }
    }
}

/// Remembers an `xml:id`, and warns if it was seen before.
pub fn check_and_store_xml_id(id_str: &str, state: &mut TtmlParserState)
    ensures
        final(state).deep_view() == store_xml_id(old(state).deep_view(), id_str@),
{
    if !id_str.is_empty() {
        if contains_string(&state.xml_ids, id_str) {
            warn(state, concat3("the xml:id '", id_str, "' occurs more than once"));
        } else {
            push_model(&mut state.xml_ids, String::from_str(id_str));
        }
    }
}

/// The key under which the type of an agent is recorded.
pub open spec fn agent_type_key(id: Seq<char>) -> Seq<char> {
    "agent-type-"@ + id
}

/// The type of an agent: what the tag says, or `person`.
pub open spec fn agent_type_or_default(given: Option<Seq<char>>) -> Seq<char> {
    match given {
        Some(t) => t,
        None => "person"@,
    }
}

/// What a `ttm:agent` tag does: an agent with an `xml:id` has its id
/// remembered and its type recorded under `agent-type-<id>`. The result
/// holds the id.
pub open spec fn agent_tag(m: ParserModel, tag: XmlTag) -> Result<(ParserModel, Option<Seq<char>>), Failure> {
    match attr_text(tag, "xml:id"@) {
        Err(f) => Err(f),
        Ok(None) => Ok((m, None)),
        Ok(Some(id)) => match attr_text(tag, "type"@) {
            Err(f) => Err(f),
            Ok(given) => Ok(
                (
                    with_raw_metadata(store_xml_id(m, id), agent_type_key(id), agent_type_or_default(given)),
                    Some(id),
                ),
            ),
        },
    }
}

/// Handles a `ttm:agent` tag and returns the id of the agent.
pub fn process_agent_tag(tag: &XmlTag, state: &mut TtmlParserState) -> (r: Result<Option<String>, ConvertError>)
    requires
        tag.well_formed(),
    ensures
        asking_step_agrees(r, final(state).deep_view(), agent_tag(old(state).deep_view(), *tag)),
{
    let agent_id = get_text(tag, "xml:id")?;
    match &agent_id {
        None => {},
        Some(id) => {
            check_and_store_xml_id(id.as_str(), state);
            let agent_type = match get_text(tag, "type")? {
                Some(t) => t,
                None => String::from_str("person"),
            };
            let mut key = String::from_str("agent-type-");
            key.append(id.as_str());
            push_metadata(&mut state.raw_metadata, key, agent_type);
        },
    }
    Ok(agent_id)
}

/// What a `meta` tag does: with both a `key` and a `value`, and a key that is
/// not empty, the value is recorded under the key.
pub open spec fn meta_tag(m: ParserModel, tag: XmlTag) -> Result<ParserModel, Failure> {
    match attr_raw(tag, "key"@) {
        Err(f) => Err(f),
        Ok(key) => match attr_raw(tag, "value"@) {
            Err(f) => Err(f),
            Ok(value) => match (key, value) {
                (Some(k), Some(v)) => match raw_text(k) {
                    Err(f) => Err(f),
                    Ok(key_text) => match raw_text(v) {
                        Err(f) => Err(f),
                        Ok(value_text) => if key_text.len() > 0 {
                            Ok(with_raw_metadata(m, key_text, value_text))
                        } else {
                            Ok(m)
                        },
                    },
                },
                _ => Ok(m),
            },
        },
    }
}

/// Handles a `meta` tag.
pub fn process_meta_tag(tag: &XmlTag, state: &mut TtmlParserState) -> (r: Result<(), ConvertError>)
    requires
        tag.well_formed(),
    ensures
        step_agrees(r, final(state).deep_view(), meta_tag(old(state).deep_view(), *tag)),
{
    let key_attr = get_raw(tag, "key")?;
    let value_attr = get_raw(tag, "value")?;
    match (key_attr, value_attr) {
        (Some(k), Some(v)) => {
            let key = text_of_raw(&k)?;
            let value = text_of_raw(&v)?;
            if !key.as_str().is_empty() {
                push_metadata(&mut state.raw_metadata, key, value);
            }
        },
        _ => {},
    }
    Ok(())
}

/// What the start of a `translation` element does: the language of the
/// translations inside it is taken from `xml:lang`.
pub open spec fn translation_start(m: ParserModel, tag: XmlTag) -> Result<ParserModel, Failure> {
    match attr_text(tag, "xml:lang"@) {
        Err(f) => Err(f),
        Ok(lang) => Ok(
            with_metadata(
                m,
                MetadataModel { in_am_translation: true, current_am_translation_lang: lang, ..m.metadata },
            ),
        ),
    }
}

/// Handles the start of a `translation` element.
pub fn open_translation(tag: &XmlTag, state: &mut TtmlParserState) -> (r: Result<(), ConvertError>)
    requires
        tag.well_formed(),
    ensures
        step_agrees(r, final(state).deep_view(), translation_start(old(state).deep_view(), *tag)),
{
    state.metadata_state.in_am_translation = true;
    state.metadata_state.current_am_translation_lang = get_text(tag, "xml:lang")?;
    Ok(())
}

/// The key of the keyed translation that a `text` element encloses: the
/// value of its `for` attribute.
pub open spec fn translation_key_of(tag: XmlTag) -> Result<Option<Seq<char>>, Failure> {
    match attr_raw(tag, "for"@) {
        Err(f) => Err(f),
        Ok(None) => Ok(None),
        Ok(Some(raw)) => match raw_text(raw) {
            Err(f) => Err(f),
            Ok(key) => Ok(Some(key)),
        },
    }
}

/// Reads the key of the keyed translation that a `text` element encloses.
pub fn read_translation_key(tag: &XmlTag) -> (r: Result<Option<String>, ConvertError>)
    requires
        tag.well_formed(),
    ensures
        agrees(r, translation_key_of(*tag)),
{
    match get_raw(tag, "for")? {
        None => Ok(None),
        Some(raw) => {
            let key = text_of_raw(&raw)?;
            Ok(Some(key))
        },
    }
}

/// What the start of a `ttm:agent` element does: an agent with an id becomes
/// the agent whose name may follow.
pub open spec fn agent_start(m: ParserModel, tag: XmlTag) -> Result<ParserModel, Failure> {
    match agent_tag(m, tag) {
        Err(f) => Err(f),
        Ok((m1, None)) => Ok(m1),
        Ok((m1, Some(id))) => Ok(
            with_metadata(
                m1,
                MetadataModel { in_agent_tag: true, current_agent_id_for_name: Some(id), ..m1.metadata },
            ),
        ),
    }
}

/// Handles the start of a `ttm:agent` element.
pub fn open_agent(tag: &XmlTag, state: &mut TtmlParserState) -> (r: Result<(), ConvertError>)
    requires
        tag.well_formed(),
    ensures
        step_agrees(r, final(state).deep_view(), agent_start(old(state).deep_view(), *tag)),
{
    match process_agent_tag(tag, state)? {
        Some(agent_id) => {
            state.metadata_state.in_agent_tag = true;
            state.metadata_state.current_agent_id_for_name = Some(agent_id);
        },
        None => {},
    }
    Ok(())
}

/// The state after a `ttm:` field was opened: its text starts empty, and its
/// local name is the key under which the text will be recorded.
pub open spec fn field_start(m: ParserModel, local: Seq<char>) -> ParserModel {
    ParserModel {
        text_buffer: Seq::empty(),
        metadata: MetadataModel { in_ttm_metadata_tag: true, current_ttm_metadata_key: Some(local), ..m.metadata },
        ..m
    }
}

/// Opens a `ttm:` field.
pub fn open_field(local: String, state: &mut TtmlParserState)
    ensures
        final(state).deep_view() == field_start(old(state).deep_view(), local@),
{
    state.metadata_state.in_ttm_metadata_tag = true;
    state.metadata_state.current_ttm_metadata_key = Some(local);
    state.text_buffer = String::new();
}

/// The state with the flag of an element set that has no content of its own.
pub open spec fn plain_start(m: ParserModel, kind: MetadataTag) -> ParserModel {
    let md = m.metadata;
    match kind {
        MetadataTag::ItunesMetadata => with_metadata(m, MetadataModel { in_itunes_metadata: true, ..md }),
        MetadataTag::Translations => with_metadata(m, MetadataModel { in_am_translations: true, ..md }),
        MetadataTag::Songwriters => with_metadata(m, MetadataModel { in_songwriters_tag: true, ..md }),
        _ => m,
    }
}

/// Opens an element without content of its own.
pub fn open_plain(kind: MetadataTag, state: &mut TtmlParserState)
    ensures
        final(state).deep_view() == plain_start(old(state).deep_view(), kind),
{
    match kind {
        MetadataTag::ItunesMetadata => {
            state.metadata_state.in_itunes_metadata = true;
        },
        MetadataTag::Translations => {
            state.metadata_state.in_am_translations = true;
        },
        MetadataTag::Songwriters => {
            state.metadata_state.in_songwriters_tag = true;
        },
        _ => {},
    }
}

/// The state after a songwriter was opened: the name starts empty.
pub open spec fn songwriter_start(m: ParserModel) -> ParserModel {
    with_metadata(
        m,
        MetadataModel { in_songwriter_tag: true, current_songwriter_name: Seq::empty(), ..m.metadata },
    )
}

/// Opens a songwriter.
pub fn open_songwriter(state: &mut TtmlParserState)
    ensures
        final(state).deep_view() == songwriter_start(old(state).deep_view()),
{
    state.metadata_state.in_songwriter_tag = true;
    state.metadata_state.current_songwriter_name = String::new();
}

/// The state after the name of an agent was opened: the name starts empty.
pub open spec fn agent_name_start(m: ParserModel) -> ParserModel {
    with_metadata(
        m,
        MetadataModel { in_agent_name_tag: true, current_agent_name_text: Seq::empty(), ..m.metadata },
    )
}

/// Opens the name of an agent.
pub fn open_agent_name(state: &mut TtmlParserState)
    ensures
        final(state).deep_view() == agent_name_start(old(state).deep_view()),
{
    state.metadata_state.in_agent_name_tag = true;
    state.metadata_state.current_agent_name_text = String::new();
}

/// The rule that a start tag inside the metadata falls under.
pub enum StartRule {
    /// A `meta` element.
    Meta,
    /// An element that sets a flag: the kind says which.
    Plain(MetadataTag),
    /// A `translation` element inside `translations`.
    Translation,
    /// A `text` element inside a `translation`.
    KeyedText,
    /// A `songwriter` element inside `songwriters`.
    Songwriter,
    /// A `ttm:agent` element.
    Agent,
    /// A `ttm:name` element inside a `ttm:agent`.
    AgentName,
    /// Any other element with the prefix `ttm:`.
    Field,
    /// Anything else.
    Skip,
}

/// The rule for a start tag, from its name and the elements that are open.
/// An element that is not where its rule expects it falls under the rule for
/// `ttm:` fields if it has that prefix, and is passed over otherwise.
pub open spec fn start_rule(md: MetadataModel, name: Seq<char>) -> StartRule {
    let kind = metadata_tag(local_name(name));
    let ttm = has_prefix(name, "ttm:"@);
    if kind == MetadataTag::Meta {
        StartRule::Meta
    } else if kind == MetadataTag::ItunesMetadata {
        StartRule::Plain(kind)
    } else if kind == MetadataTag::Translations && md.in_itunes_metadata {
        StartRule::Plain(kind)
    } else if kind == MetadataTag::Translation && md.in_am_translations {
        StartRule::Translation
    } else if kind == MetadataTag::Text && md.in_am_translation {
        StartRule::KeyedText
    } else if kind == MetadataTag::Songwriters && md.in_itunes_metadata {
        StartRule::Plain(kind)
    } else if kind == MetadataTag::Songwriter && md.in_songwriters_tag {
        StartRule::Songwriter
    } else if kind == MetadataTag::Agent && ttm {
        StartRule::Agent
    } else if kind == MetadataTag::Name && md.in_agent_tag && ttm {
        StartRule::AgentName
    } else if ttm {
        StartRule::Field
    } else {
        StartRule::Skip
    }
}

/// Tells which rule a start tag falls under.
fn choose_start_rule(state: &TtmlParserState, name: &str, local: &str) -> (r: StartRule)
    requires
        local@ == local_name(name@),
    ensures
        r == start_rule(state.deep_view().metadata, name@),
{
    let kind = classify_metadata_tag(local);
    let ttm = str_starts_with(name, "ttm:");
    let md = &state.metadata_state;
    if kind == MetadataTag::Meta {
        StartRule::Meta
    } else if kind == MetadataTag::ItunesMetadata {
        StartRule::Plain(kind)
    } else if kind == MetadataTag::Translations && md.in_itunes_metadata {
        StartRule::Plain(kind)
    } else if kind == MetadataTag::Translation && md.in_am_translations {
        StartRule::Translation
    } else if kind == MetadataTag::Text && md.in_am_translation {
        StartRule::KeyedText
    } else if kind == MetadataTag::Songwriters && md.in_itunes_metadata {
        StartRule::Plain(kind)
    } else if kind == MetadataTag::Songwriter && md.in_songwriters_tag {
        StartRule::Songwriter
    } else if kind == MetadataTag::Agent && ttm {
        StartRule::Agent
    } else if kind == MetadataTag::Name && md.in_agent_tag && ttm {
        StartRule::AgentName
    } else if ttm {
        StartRule::Field
    } else {
        StartRule::Skip
    }
}

/// A step that asks for no text.
pub open spec fn asking_nothing(step: Result<ParserModel, Failure>) -> Result<(ParserModel, Option<Seq<char>>), Failure> {
    match step {
        Err(f) => Err(f),
        Ok(m) => Ok((m, None)),
    }
}

/// What a start tag inside the metadata does. The second part of the result
/// is the key of a keyed translation whose text the tag encloses: the text
/// is then to be read and stored under the key.
pub open spec fn metadata_start(m: ParserModel, tag: XmlTag) -> Result<(ParserModel, Option<Seq<char>>), Failure> {
    match start_rule(m.metadata, tag.name@) {
        StartRule::Meta => asking_nothing(meta_tag(m, tag)),
        StartRule::Plain(kind) => Ok((plain_start(m, kind), None)),
        StartRule::Translation => asking_nothing(translation_start(m, tag)),
        StartRule::KeyedText => match translation_key_of(tag) {
            Err(f) => Err(f),
            Ok(key) => Ok((m, key)),
        },
        StartRule::Songwriter => Ok((songwriter_start(m), None)),
        StartRule::Agent => asking_nothing(agent_start(m, tag)),
        StartRule::AgentName => Ok((agent_name_start(m), None)),
        StartRule::Field => Ok((field_start(m, local_name(tag.name@)), None)),
        StartRule::Skip => Ok((m, None)),
    }
}

/// Handles a start tag inside the metadata. Returns the key of the keyed
/// translation whose text the tag encloses, if it encloses one.
pub fn handle_metadata_start_event(tag: &XmlTag, state: &mut TtmlParserState) -> (r: Result<
    Option<String>,
    ConvertError,
>)
    requires
        tag.well_formed(),
    ensures
        asking_step_agrees(r, final(state).deep_view(), metadata_start(old(state).deep_view(), *tag)),
{
    let local = get_local_name_str(tag.name.as_str());
    match choose_start_rule(state, tag.name.as_str(), local.as_str()) {
        StartRule::Meta => {
            process_meta_tag(tag, state)?;
            Ok(None)
        },
        StartRule::Plain(kind) => {
            open_plain(kind, state);
            Ok(None)
        },
        StartRule::Translation => {
            open_translation(tag, state)?;
            Ok(None)
        },
        StartRule::KeyedText => read_translation_key(tag),
        StartRule::Songwriter => {
            open_songwriter(state);
            Ok(None)
        },
        StartRule::Agent => {
            open_agent(tag, state)?;
            Ok(None)
        },
        StartRule::AgentName => {
            open_agent_name(state);
            Ok(None)
        },
        StartRule::Field => {
            open_field(local, state);
            Ok(None)
        },
        StartRule::Skip => Ok(None),
    }
}

/// The state after the text of a keyed translation was read: a text that is
/// not empty is stored under the key, with the language of the enclosing
/// `translation` element.
pub open spec fn keyed_translation_read(m: ParserModel, key: Seq<char>, text: Seq<char>) -> ParserModel {
    if text.len() > 0 {
        with_metadata(
            m,
            MetadataModel {
                translation_map: store_translation(
                    m.metadata.translation_map,
                    KeyedTranslationModel { key: key, text: text, lang: m.metadata.current_am_translation_lang },
                ),
                ..m.metadata
            },
        )
    } else {
        m
    }
}

/// Stores the text of a keyed translation.
pub fn record_translation(state: &mut TtmlParserState, key: String, text: String)
    ensures
        final(state).deep_view() == keyed_translation_read(old(state).deep_view(), key@, text@),
{
    if !text.as_str().is_empty() {
        let lang = state.metadata_state.current_am_translation_lang.clone();
        put_translation(&mut state.metadata_state.translation_map, KeyedTranslation { key, text, lang });
    }
}

/// What an empty element inside the metadata does.
pub open spec fn metadata_empty(m: ParserModel, tag: XmlTag) -> Result<ParserModel, Failure> {
    let kind = metadata_tag(local_name(tag.name@));
    if kind == MetadataTag::Meta {
        meta_tag(m, tag)
    } else if kind == MetadataTag::Agent && has_prefix(tag.name@, "ttm:"@) {
        match agent_tag(m, tag) {
            Err(f) => Err(f),
            Ok((m1, _)) => Ok(m1),
        }
    } else {
        Ok(m)
    }
}

/// Handles an empty element inside the metadata.
pub fn handle_metadata_empty_event(tag: &XmlTag, state: &mut TtmlParserState) -> (r: Result<(), ConvertError>)
    requires
        tag.well_formed(),
    ensures
        step_agrees(r, final(state).deep_view(), metadata_empty(old(state).deep_view(), *tag)),
{
    let local = get_local_name_str(tag.name.as_str());
    let kind = classify_metadata_tag(local.as_str());
    if kind == MetadataTag::Meta {
        process_meta_tag(tag, state)
    } else if kind == MetadataTag::Agent && str_starts_with(tag.name.as_str(), "ttm:") {
        match process_agent_tag(tag, state) {
            Ok(_) => Ok(()),
            Err(e) => Err(e),
        }
    } else {
        Ok(())
    }
}

/// The value recorded for the display name of an agent.
pub open spec fn agent_name_value(id: Seq<char>, display: Seq<char>) -> Seq<char> {
    id + "="@ + display
}

/// The state after the end of a songwriter: the name gathered, if not
/// empty, is recorded trimmed under `songwriters`.
pub open spec fn songwriter_end(m: ParserModel) -> ParserModel {
    let recorded = if m.metadata.current_songwriter_name.len() > 0 {
        with_raw_metadata(m, "songwriters"@, trim(m.metadata.current_songwriter_name))
    } else {
        m
    };
    with_metadata(recorded, MetadataModel { in_songwriter_tag: false, ..m.metadata })
}

/// Closes a songwriter.
pub fn close_songwriter(state: &mut TtmlParserState)
    ensures
        final(state).deep_view() == songwriter_end(old(state).deep_view()),
{
    if !state.metadata_state.current_songwriter_name.as_str().is_empty() {
        let value = trim_text(state.metadata_state.current_songwriter_name.as_str());
        push_metadata(&mut state.raw_metadata, String::from_str("songwriters"), value);
    }
    state.metadata_state.in_songwriter_tag = false;
}

/// The state after the end of the name of an agent: for an agent with an id
/// and a name that is not blank, `id=name` is recorded under `agent`.
pub open spec fn agent_name_end(m: ParserModel) -> ParserModel {
    let display = trim(m.metadata.current_agent_name_text);
    let recorded = match m.metadata.current_agent_id_for_name {
        Some(id) => if display.len() > 0 {
            with_raw_metadata(m, "agent"@, agent_name_value(id, display))
        } else {
            m
        },
        None => m,
    };
    with_metadata(recorded, MetadataModel { in_agent_name_tag: false, ..m.metadata })
}

/// Closes the name of an agent.
pub fn close_agent_name(state: &mut TtmlParserState)
    ensures
        final(state).deep_view() == agent_name_end(old(state).deep_view()),
{
    let display = trim_text(state.metadata_state.current_agent_name_text.as_str());
    let value: Option<String> = match &state.metadata_state.current_agent_id_for_name {
        Some(id) => {
            if !display.as_str().is_empty() {
                Some(concat3(id.as_str(), "=", display.as_str()))
            } else {
                None
            }
        },
        None => None,
    };
    match value {
        Some(v) => push_metadata(&mut state.raw_metadata, String::from_str("agent"), v),
        None => {},
    }
    state.metadata_state.in_agent_name_tag = false;
}

/// The state after the end of the open `ttm:` field: its normalized text, if
/// not empty, is recorded under the local name of the field.
pub open spec fn field_end(m: ParserModel, local: Seq<char>) -> ParserModel {
    let value = normalize_whitespace(m.text_buffer);
    let recorded = if value.len() > 0 {
        with_raw_metadata(m, local, value)
    } else {
        m
    };
    ParserModel {
        text_buffer: Seq::empty(),
        metadata: MetadataModel { in_ttm_metadata_tag: false, current_ttm_metadata_key: None, ..m.metadata },
        ..recorded
    }
}

/// Closes the open `ttm:` field.
pub fn close_field(local: String, state: &mut TtmlParserState)
    ensures
        final(state).deep_view() == field_end(old(state).deep_view(), local@),
{
    let value = normalize_text_whitespace(state.text_buffer.as_str());
    if !value.as_str().is_empty() {
        push_metadata(&mut state.raw_metadata, local, value);
    }
    state.metadata_state.in_ttm_metadata_tag = false;
    state.metadata_state.current_ttm_metadata_key = None;
    state.text_buffer = String::new();
}

/// The state with a flag of the metadata sub-state cleared.
pub open spec fn plain_end(m: ParserModel, kind: MetadataTag) -> ParserModel {
    let md = m.metadata;
    match kind {
        MetadataTag::ItunesMetadata => with_metadata(m, MetadataModel { in_itunes_metadata: false, ..md }),
        MetadataTag::Translations => with_metadata(m, MetadataModel { in_am_translations: false, ..md }),
        MetadataTag::Translation => with_metadata(m, MetadataModel { in_am_translation: false, ..md }),
        MetadataTag::Songwriters => with_metadata(m, MetadataModel { in_songwriters_tag: false, ..md }),
        MetadataTag::Agent => with_metadata(
            m,
            MetadataModel { in_agent_tag: false, current_agent_id_for_name: None, ..md },
        ),
        _ => m,
    }
}

/// Closes an element without content of its own.
pub fn close_plain(kind: MetadataTag, state: &mut TtmlParserState)
    ensures
        final(state).deep_view() == plain_end(old(state).deep_view(), kind),
{
    match kind {
        MetadataTag::ItunesMetadata => {
            state.metadata_state.in_itunes_metadata = false;
        },
        MetadataTag::Translations => {
            state.metadata_state.in_am_translations = false;
        },
        MetadataTag::Translation => {
            state.metadata_state.in_am_translation = false;
        },
        MetadataTag::Songwriters => {
            state.metadata_state.in_songwriters_tag = false;
        },
        MetadataTag::Agent => {
            state.metadata_state.in_agent_tag = false;
            state.metadata_state.current_agent_id_for_name = None;
        },
        _ => {},
    }
}

/// The rule that an end tag inside the metadata falls under.
pub enum EndRule {
    /// An element that clears a flag: the kind says which.
    Plain(MetadataTag),
    /// A songwriter.
    Songwriter,
    /// The name of an agent.
    AgentName,
    /// The open `ttm:` field.
    Field,
    /// Anything else.
    Skip,
}

/// The rule for an end tag, from its name and the elements that are open.
pub open spec fn end_rule(md: MetadataModel, name: Seq<char>) -> EndRule {
    let local = local_name(name);
    let kind = metadata_tag(local);
    let ttm = has_prefix(name, "ttm:"@);
    if kind == MetadataTag::ItunesMetadata || kind == MetadataTag::Translations || kind
        == MetadataTag::Translation {
        EndRule::Plain(kind)
    } else if kind == MetadataTag::Songwriter {
        EndRule::Songwriter
    } else if kind == MetadataTag::Songwriters {
        EndRule::Plain(kind)
    } else if kind == MetadataTag::Name && md.in_agent_name_tag && ttm {
        EndRule::AgentName
    } else if kind == MetadataTag::Agent && md.in_agent_tag && ttm {
        EndRule::Plain(kind)
    } else if md.in_ttm_metadata_tag && md.current_ttm_metadata_key == Some(local) {
        EndRule::Field
    } else {
        EndRule::Skip
    }
}

/// Tells which rule an end tag falls under.
fn choose_end_rule(state: &TtmlParserState, name: &str, local: &str) -> (r: EndRule)
    requires
        local@ == local_name(name@),
    ensures
        r == end_rule(state.deep_view().metadata, name@),
{
    let kind = classify_metadata_tag(local);
    let ttm = str_starts_with(name, "ttm:");
    let md = &state.metadata_state;
    if kind == MetadataTag::ItunesMetadata || kind == MetadataTag::Translations || kind
        == MetadataTag::Translation {
        EndRule::Plain(kind)
    } else if kind == MetadataTag::Songwriter {
        EndRule::Songwriter
    } else if kind == MetadataTag::Songwriters {
        EndRule::Plain(kind)
    } else if kind == MetadataTag::Name && md.in_agent_name_tag && ttm {
        EndRule::AgentName
    } else if kind == MetadataTag::Agent && md.in_agent_tag && ttm {
        EndRule::Plain(kind)
    } else {
        let is_open_field = md.in_ttm_metadata_tag && match &md.current_ttm_metadata_key {
            Some(key) => str_eq(key.as_str(), local),
            None => false,
        };
        if is_open_field {
            EndRule::Field
        } else {
            EndRule::Skip
        }
    }
}

/// What an end tag inside the metadata does.
///
/// The end of a songwriter records the name gathered, trimmed, under
/// `songwriters`. The end of the name of an agent records `id=name` under
/// `agent`. The end of the open `ttm:` field records its normalized text
/// under the local name of the field.
pub open spec fn metadata_end(m: ParserModel, name: Seq<char>) -> ParserModel {
    match end_rule(m.metadata, name) {
        EndRule::Plain(kind) => plain_end(m, kind),
        EndRule::Songwriter => songwriter_end(m),
        EndRule::AgentName => agent_name_end(m),
        EndRule::Field => field_end(m, local_name(name)),
        EndRule::Skip => m,
    }
}

/// Handles an end tag inside the metadata.
pub fn handle_metadata_end_event(name: &str, state: &mut TtmlParserState)
    ensures
        final(state).deep_view() == metadata_end(old(state).deep_view(), name@),
{
    let local = get_local_name_str(name);
    match choose_end_rule(state, name, local.as_str()) {
        EndRule::Plain(kind) => close_plain(kind, state),
        EndRule::Songwriter => close_songwriter(state),
        EndRule::AgentName => close_agent_name(state),
        EndRule::Field => close_field(local, state),
        EndRule::Skip => {},
    }
}

} // verus!
