//! The TTML parser: an event-driven consumer of the XML stream.

pub mod attrs;
pub mod body;
pub mod driver;
pub mod events;
pub mod finalize;
pub mod laws;
pub mod metadata;
pub mod state;
pub mod support;
