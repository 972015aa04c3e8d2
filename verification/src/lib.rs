//! Client-side building blocks for a length-prefixed binary IPC protocol:
//! a wire message codec and an event dispatch registry.

use vstd::prelude::*;

pub mod event_handler;
pub mod models;

verus! {

/// The error kinds that the library's fallible operations report.
#[derive(Debug, Clone, Copy, PartialEq, Eq, Structural)]
pub enum DiscordError {
    /// An opcode ordinal outside the valid enumeration was found while decoding.
    Conversion,
    /// Fewer bytes were available than a frame header or its declared length requires.
    Truncated,
    /// The payload bytes of a frame are not valid UTF-8 text.
    InvalidText,
    /// The value handed to a message constructor could not be serialized.
    Serialization,
    /// A removal found nothing to remove; best-effort cleanup ignores this.
    NoChangesMade,
}

} // verus!
