//! A verified reader for Standard MIDI Files.
//!
//! The reader turns a byte stream into a time-ordered model of musical
//! events: a song of tracks, each track a sequence of events with
//! absolute tick timestamps.  The whole decode — variable-length
//! quantities, running status, the system/meta/sysex sub-formats — is
//! specified by a mathematical interpreter over the byte sequence, and
//! the executable parser is proved to return exactly what the
//! interpreter says.

pub mod types;
pub mod vlq;
pub mod events;
pub mod reader;
pub mod laws;
