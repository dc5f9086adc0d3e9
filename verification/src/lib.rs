//! Zero-copy read handles over a storage engine's internal memory.
//!
//! The engine hands back a pinned buffer for a key instead of copying the
//! value into caller-owned memory.  [`DBPinnableSlice`] adopts exactly one
//! such buffer, exposes it as a byte view, and releases it exactly once.
//! [`Engine`] is the collaborator boundary: it answers `get_pinned` with a
//! handle, an explicit absence, or a typed error, and counts every release
//! so that the exactly-once discipline is observable.

pub mod engine;
pub mod pinned;

pub use engine::Engine;
pub use engine::EngineError;
pub use pinned::DBPinnableSlice;
