//! The error taxonomy of the library.
//!
//! Reading or parsing a file can only fail in the surrounding application,
//! which keeps its own wrapper for those failures; the variants here are the
//! outcomes the resolution logic itself produces.

use vstd::prelude::*;
use crate::map::arena::ArenaMode;

verus! {

/// Everything a query against the game data can report.
#[derive(Debug, Clone, PartialEq)]
pub enum GameReadError {
    /// No map of the given name is listed.
    MapNotFound(String),
    /// The named map is a development map and has no arena definition.
    ArenaDefinitionNotFound(String),
    /// A required arena field is still absent after full resolution.
    ArenaKeyNotFound(String),
    /// The requested mode is not configured for the map.
    ArenaModeNotFound(ArenaMode),
    /// Neither the literal localization key nor its fallback form resolves.
    LocalizationKeyNotFound,
    /// A fallback lookup was requested but the key holds no delimiter.
    CharacterNotFound(char, String),
}

} // verus!
