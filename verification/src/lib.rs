//! Core of a replay-file monitor: a settings store persisted as a one-key
//! configuration document, a single-directory watch lifecycle, and an event
//! pump that filters filesystem notifications down to freshly created replay
//! files.
//!
//! All decisions are made here on plain values; the surrounding binary
//! performs the actual file reads and writes and drives the OS watch.

pub mod config;
pub mod events;
pub mod settings;
pub mod watch;
