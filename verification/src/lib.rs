//! Core of a chat-triggered audio playback service.
//!
//! The library owns the decision logic of the service: the sound catalog
//! (an in-memory index of clip names kept in sync with an external clip
//! store), the per-guild session registry that admits at most one active
//! playback session per guild, the playback orchestrator, the completion
//! handler that tears a session down, and the command dispatcher. All
//! input/output (chat gateway, voice transport, directory scanning) stays
//! outside; callers hand the library plain values and perform the effects
//! it decides on.

pub mod catalog;
pub mod dispatch;
pub mod orchestrator;
pub mod registry;
pub mod util;
