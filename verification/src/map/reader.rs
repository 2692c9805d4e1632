//! The map listing: the shape of the listing document and the reader over
//! it.

use vstd::prelude::*;
use vstd::string::*;
use crate::errors::GameReadError;
use crate::game_reader::GameReader;
use crate::map::GameMap;
use crate::text::str_eq;

verus! {

/// One entry of the listing document.
#[derive(Debug, PartialEq, Clone)]
pub struct XmlMap {
    pub id: i32,
    pub name: String,
    pub is_development: Option<String>,
}

/// The listing document: the maps in file order.
#[derive(Debug, PartialEq, Clone)]
pub struct Root {
    pub map: Vec<XmlMap>,
}

/// Whether a listing entry marks its map as a development map.
pub open spec fn is_development_of(xml_map: XmlMap) -> bool {
    match xml_map.is_development {
        Some(d) => d@ == "True"@,
        None => false,
    }
}

/// The index of the first listing entry of the given name.
pub open spec fn first_name_index(maps: Seq<XmlMap>, name: Seq<char>) -> int
    decreases maps.len(),
{
    if maps.len() == 0 {
        0
    } else if maps[0].name@ == name {
        0
    } else {
        1 + first_name_index(maps.drop_first(), name)
    }
}

/// A position whose entry carries the name, with no earlier one doing so,
/// is the first such index.
proof fn lemma_first_name_index_at(maps: Seq<XmlMap>, name: Seq<char>, i: int)
    requires
        0 <= i < maps.len(),
        maps[i].name@ == name,
        forall|j: int| 0 <= j < i ==> maps[j].name@ != name,
    ensures
        first_name_index(maps, name) == i,
    decreases i,
{
    if i > 0 {
        assert forall|j: int| 0 <= j < i - 1 implies maps.drop_first()[j].name@ != name by {
            assert(maps.drop_first()[j] == maps[j + 1]);
        }
        assert(maps.drop_first()[i - 1] == maps[i]);
        lemma_first_name_index_at(maps.drop_first(), name, i - 1);
    }
}

/// Reads the map listing.
pub struct MapReader {
    game_reader: GameReader,
}

impl MapReader {
    /// The reader this one was created from.
    pub closed spec fn spec_game_reader(self) -> GameReader {
        self.game_reader
    }

    /// Creates a map reader for a game reader.
    pub fn from(game_reader: &GameReader) -> (r: Self)
        ensures
            r.spec_game_reader() == *game_reader,
    {
        MapReader { game_reader: game_reader.clone() }
    }

    /// All maps of a parsed listing document, in listing order.
    pub fn list(&self, root: &Root) -> (r: Vec<GameMap>)
        ensures
            r@.len() == root.map@.len(),
            forall|i: int|
                0 <= i < r@.len() ==> (#[trigger] r@[i]).name == root.map@[i].name && r@[i]
                    .is_development == is_development_of(root.map@[i]),
    {
        let mut result: Vec<GameMap> = Vec::new();
        let mut i: usize = 0;
        while i < root.map.len()
            invariant
                i <= root.map@.len(),
                result@.len() == i,
                forall|j: int|
                    0 <= j < i ==> (#[trigger] result@[j]).name == root.map@[j].name && result@[j]
                        .is_development == is_development_of(root.map@[j]),
            decreases root.map@.len() - i,
        {
            result.push(GameMap::new(&root.map[i], &self.game_reader));
            i = i + 1;
        }
        result
    }

    /// The first listed map of the given name, or a not-found error when no
    /// entry carries it.
    pub fn get_by_name(&self, root: &Root, map_name: &str) -> (r: Result<GameMap, GameReadError>)
        ensures
            (exists|i: int| 0 <= i < root.map@.len() && (#[trigger] root.map@[i]).name@
                == map_name@) ==> (r matches Ok(m) && {
                let i = first_name_index(root.map@, map_name@);
                &&& m.name == root.map@[i].name
                &&& m.name@ == map_name@
                &&& m.is_development == is_development_of(root.map@[i])
            }),
            !(exists|i: int| 0 <= i < root.map@.len() && (#[trigger] root.map@[i]).name@
                == map_name@) ==> (r matches Err(e) && e matches GameReadError::MapNotFound(n)
                && n@ == map_name@),
    {
        let mut i: usize = 0;
        while i < root.map.len()
            invariant
                i <= root.map@.len(),
                forall|j: int| 0 <= j < i ==> (#[trigger] root.map@[j]).name@ != map_name@,
            decreases root.map@.len() - i,
        {
            if str_eq(root.map[i].name.as_str(), map_name) {
                proof {
                    lemma_first_name_index_at(root.map@, map_name@, i as int);
                }
                return Ok(GameMap::new(&root.map[i], &self.game_reader));
            }
            i = i + 1;
        }
        Err(GameReadError::MapNotFound(map_name.to_owned()))
    }
}

} // verus!
