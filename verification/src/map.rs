//! Maps and their arena definitions.

pub mod arena;
pub mod reader;

use vstd::prelude::*;
use vstd::string::*;
use crate::errors::GameReadError;
use crate::game_reader::GameReader;
use crate::localization::{fetch_outcome, Catalog, LocalizationCatalog};
use crate::map::arena::{resolve_spec, ArenaDefinition};
use crate::map::reader::{is_development_of, XmlMap};

verus! {

/// One playable map: its technical name and whether it is a development
/// map.  A development map has no arena definition by contract.
#[derive(Debug)]
pub struct GameMap {
    pub game_reader: GameReader,
    pub name: String,
    pub is_development: bool,
}

impl GameMap {
    /// Builds a map from its listing entry; the entry marks a development
    /// map with the literal text `True`.
    pub fn new(xml_map: &XmlMap, game_reader: &GameReader) -> (r: GameMap)
        ensures
            r.name == xml_map.name,
            r.is_development == is_development_of(*xml_map),
            r.game_reader == *game_reader,
    {
        let is_development = match &xml_map.is_development {
            Some(dev) => crate::text::str_eq(dev.as_str(), "True"),
            None => false,
        };
        GameMap { name: xml_map.name.clone(), is_development, game_reader: game_reader.clone() }
    }

    /// The map's resolved arena definition, from the shared default
    /// document and the map's own override document.  A development map
    /// has none and reports that instead.
    pub fn arena(&self, default_doc: ArenaDefinition, override_doc: ArenaDefinition) -> (r: Result<
        ArenaDefinition,
        GameReadError,
    >)
        requires
            default_doc.well_formed(),
            override_doc.well_formed(),
        ensures
            self.is_development ==> (r matches Err(e) && e matches
                GameReadError::ArenaDefinitionNotFound(n) && n@ == self.name@),
            !self.is_development ==> (r matches Ok(d) && d@ == resolve_spec(
                default_doc@,
                override_doc@,
            ) && d.well_formed()),
    {
        if self.is_development {
            Err(GameReadError::ArenaDefinitionNotFound(self.name.clone()))
        } else {
            Ok(ArenaDefinition::resolve(default_doc, override_doc))
        }
    }

    /// The map's display name: the key `<name>/name` resolved against the
    /// arena-names catalog, with the usual fallback.
    pub fn display_name(&self, catalog: &Catalog) -> (r: Result<String, GameReadError>)
        ensures
            fetch_outcome(catalog@, self.name@ + "/name"@, r),
    {
        let key = self.name.clone().concat("/name");
        self.game_reader.localization().fetch(catalog, key.as_str())
    }
}

} // verus!
