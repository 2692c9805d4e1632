//! The entry point that ties the readers together.

use vstd::prelude::*;
use vstd::string::*;
use crate::localization::LocalizationReader;
use crate::map::reader::MapReader;

verus! {

/// Remembers where the game's unpacked sources live and hands out the
/// readers for maps and localization.
#[derive(Debug)]
pub struct GameReader {
    sources_path: String,
}

impl Clone for GameReader {
    fn clone(&self) -> (r: Self)
        ensures
            r == *self,
    {
        GameReader { sources_path: self.sources_path.clone() }
    }
}

impl GameReader {
    /// The directory the reader was connected to.
    pub closed spec fn spec_sources_path(self) -> Seq<char> {
        self.sources_path@
    }

    /// Connects to an unpacked game source directory.
    pub fn connect(sources_path: &str) -> (r: Self)
        ensures
            r.spec_sources_path() == sources_path@,
    {
        GameReader { sources_path: sources_path.to_owned() }
    }

    /// The directory the reader was connected to.
    pub fn sources_path(&self) -> (r: &String)
        ensures
            r@ == self.spec_sources_path(),
    {
        &self.sources_path
    }

    /// A reader for the map listing.
    pub fn maps(&self) -> (r: MapReader)
        ensures
            r.spec_game_reader() == *self,
    {
        MapReader::from(self)
    }

    /// A reader for display strings.
    pub fn localization(&self) -> (r: LocalizationReader)
        ensures
            r.spec_game_reader() == *self,
    {
        LocalizationReader::from(self)
    }
}

} // verus!
