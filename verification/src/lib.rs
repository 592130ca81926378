//! Query recorded signal waveforms through name-based handles.
//!
//! The core of the library is a session that owns a loaded waveform: an
//! ordered time table, a variable hierarchy, and lazily loaded sample
//! tracks. Around it stand a time-to-index resolver with last-known-value
//! semantics, a decoder that renders a sample in several output encodings,
//! and a cache-trust policy that decides when caches persisted by an
//! earlier session may be restored.

pub mod backend;
pub mod decode;
pub mod policy;
pub mod resolver;
pub mod session;
