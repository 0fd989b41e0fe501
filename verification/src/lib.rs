//! Lyric processing for Timed Text Markup Language (TTML) documents.
//!
//! The crate parses a TTML lyric document into lines of timed syllables,
//! and offers the passes that follow a parse:
//!
//! - [`timecode`] reads time strings as milliseconds;
//! - [`text`] trims and normalizes whitespace;
//! - [`parser`] turns the events of a document into lines, one step for
//!   each event, and [`parse_ttml`] runs the steps over a whole document;
//! - [`agent_recognizer`] finds the singer of a line in a marker at its
//!   start;
//! - [`lyric_optimizer`] finds groups of alike syllables and lays them out
//!   again from new durations;
//! - [`adapter`] flattens lines into lines of timed words.
//!
//! Every executable function is verified against a contract over the
//! mathematical model of its arguments, which `deep_view()` gives. Two
//! outside crates do work that is not verified here: `quick_xml` reads the
//! document ([`xml`]) and `regex` matches patterns ([`pattern`]). What they
//! answer is not described: each answer is given a name, and the results of
//! this crate are stated over those names.

pub mod adapter;
pub mod agent_recognizer;
pub mod error;
pub mod lyric_optimizer;
pub mod media;
pub mod options;
pub mod parser;
pub mod pattern;
pub mod text;
pub mod timecode;
pub mod types;
pub mod xml;

pub use adapter::convert_to_amll_lyrics;
pub use agent_recognizer::recognize_agents;
pub use parser::driver::parse_ttml;
pub use text::normalize_text_whitespace;
