//! Read-only access to a game's static configuration data: per-map arena
//! definitions resolved by layering a map-specific override document over a
//! shared default document, and human-readable text drawn from localization
//! catalogs with a deterministic short-key fallback.
//!
//! The crate holds only the resolution logic; reading files and parsing XML
//! or gettext catalogs is left to the surrounding application, which hands
//! the parsed documents and catalogs in as plain values.

pub mod errors;
pub mod game_reader;
pub mod localization;
pub mod map;
pub mod text;
