//! Localization catalogs and the key-resolution algorithm.
//!
//! A catalog is a loaded key-to-text table.  Looking a key up returns the
//! key itself when no entry matches — that echo is the catalog convention
//! for "not found", and the fallback algorithm of [`LocalizationReader::fetch`]
//! is built on it: when the literal key misses, the part of the key after
//! its first underscore is tried once more, and nothing else is ever tried.

use vstd::prelude::*;
use vstd::string::*;
use crate::errors::GameReadError;
use crate::game_reader::GameReader;
use crate::text::str_eq;

verus! {

/// One translation unit of a catalog: a message id and its text.
#[derive(Debug, PartialEq, Clone)]
pub struct CatalogEntry {
    pub id: String,
    pub text: String,
}

/// Model of [`CatalogEntry`].
pub ghost struct CatalogEntryView {
    pub id: Seq<char>,
    pub text: Seq<char>,
}

impl View for CatalogEntry {
    type V = CatalogEntryView;

    open spec fn view(&self) -> CatalogEntryView {
        CatalogEntryView { id: self.id@, text: self.text@ }
    }
}

/// A loaded localization catalog: its translation units in file order.
#[derive(Debug, PartialEq, Clone)]
pub struct Catalog {
    pub entries: Vec<CatalogEntry>,
}

impl View for Catalog {
    type V = Seq<CatalogEntryView>;

    open spec fn view(&self) -> Seq<CatalogEntryView> {
        self.entries@.map_values(|e: CatalogEntry| e@)
    }
}

/// What looking a key up returns: the text of the first unit whose id
/// matches, and the key itself when none does.
pub open spec fn lookup_spec(entries: Seq<CatalogEntryView>, key: Seq<char>) -> Seq<char>
    decreases entries.len(),
{
    if entries.len() == 0 {
        key
    } else if entries[0].id == key {
        entries[0].text
    } else {
        lookup_spec(entries.drop_first(), key)
    }
}

/// Whether the key holds the fallback delimiter.
pub open spec fn has_delimiter(key: Seq<char>) -> bool {
    exists|i: int| 0 <= i < key.len() && key[i] == '_'
}

/// The index of the first delimiter of the key.
pub open spec fn first_delimiter(key: Seq<char>) -> int
    decreases key.len(),
{
    if key.len() == 0 {
        0
    } else if key[0] == '_' {
        0
    } else {
        1 + first_delimiter(key.drop_first())
    }
}

/// The short form the fallback tries: everything strictly after the first
/// delimiter.
pub open spec fn fallback_key(key: Seq<char>) -> Seq<char> {
    key.skip(first_delimiter(key) + 1)
}

/// A position that holds a delimiter, with none before it, is the first
/// delimiter.
proof fn lemma_first_delimiter_at(key: Seq<char>, i: int)
    requires
        0 <= i < key.len(),
        key[i] == '_',
        forall|j: int| 0 <= j < i ==> key[j] != '_',
    ensures
        first_delimiter(key) == i,
        has_delimiter(key),
    decreases i,
{
    if i > 0 {
        assert forall|j: int| 0 <= j < i - 1 implies key.drop_first()[j] != '_' by {
            assert(key.drop_first()[j] == key[j + 1]);
        }
        assert(key.drop_first()[i - 1] == key[i]);
        lemma_first_delimiter_at(key.drop_first(), i - 1);
    }
}

/// What the two-step lookup returns for a key against a catalog: the
/// literal text when the literal key hits; the delimiter error when it
/// misses and the key has no underscore; the fallback's text when the
/// short form hits; and the key-not-found error when it misses too.
pub open spec fn fetch_outcome(
    entries: Seq<CatalogEntryView>,
    key: Seq<char>,
    r: Result<String, GameReadError>,
) -> bool {
    let literal = lookup_spec(entries, key);
    if literal != key {
        r matches Ok(s) && s@ == literal
    } else if !has_delimiter(key) {
        r matches Err(e) && e matches GameReadError::CharacterNotFound(c, k) && c == '_' && k@
            == key
    } else {
        let second = lookup_spec(entries, fallback_key(key));
        if second != fallback_key(key) {
            r matches Ok(s) && s@ == second
        } else {
            r == Err::<String, GameReadError>(GameReadError::LocalizationKeyNotFound)
        }
    }
}

impl Catalog {
    /// Looks the key up literally: the text of the first matching unit, or
    /// the key itself when no unit matches.
    pub fn lookup(&self, key: &str) -> (r: String)
        ensures
            r@ == lookup_spec(self@, key@),
    {
        let mut i: usize = 0;
        proof {
            assert(self@.skip(0) =~= self@);
        }
        while i < self.entries.len()
            invariant
                i <= self.entries@.len(),
                lookup_spec(self@, key@) == lookup_spec(self@.skip(i as int), key@),
            decreases self.entries@.len() - i,
        {
            proof {
                assert(self@.skip(i as int)[0] == self@[i as int]);
                assert(self@.skip(i as int).drop_first() =~= self@.skip(i as int + 1));
            }
            if str_eq(self.entries[i].id.as_str(), key) {
                return self.entries[i].text.clone();
            }
            i = i + 1;
        }
        proof {
            assert(self@.skip(i as int) =~= Seq::<CatalogEntryView>::empty());
        }
        key.to_owned()
    }
}

/// The closed set of playable nations.
#[derive(Debug, PartialEq, Eq, Structural, Copy, Clone)]
pub enum Nation {
    Multinational,
    Gb,
    Germany,
    Poland,
    Italy,
    Sweden,
    Ussr,
    Japan,
    Igr,
    China,
    Czech,
    France,
    Usa,
}

/// The canonical lowercase name of a nation, as catalog file names use it.
pub open spec fn nation_name_spec(nation: Nation) -> Seq<char> {
    match nation {
        Nation::Multinational => "multinational"@,
        Nation::Gb => "gb"@,
        Nation::Germany => "germany"@,
        Nation::Poland => "poland"@,
        Nation::Italy => "italy"@,
        Nation::Sweden => "sweden"@,
        Nation::Ussr => "ussr"@,
        Nation::Japan => "japan"@,
        Nation::Igr => "igr"@,
        Nation::China => "china"@,
        Nation::Czech => "czech"@,
        Nation::France => "france"@,
        Nation::Usa => "usa"@,
    }
}

impl Nation {
    /// The canonical lowercase name of the nation.
    pub fn name(&self) -> (r: String)
        ensures
            r@ == nation_name_spec(*self),
    {
        match self {
            Nation::Multinational => String::from_str("multinational"),
            Nation::Gb => String::from_str("gb"),
            Nation::Germany => String::from_str("germany"),
            Nation::Poland => String::from_str("poland"),
            Nation::Italy => String::from_str("italy"),
            Nation::Sweden => String::from_str("sweden"),
            Nation::Ussr => String::from_str("ussr"),
            Nation::Japan => String::from_str("japan"),
            Nation::Igr => String::from_str("igr"),
            Nation::China => String::from_str("china"),
            Nation::Czech => String::from_str("czech"),
            Nation::France => String::from_str("france"),
            Nation::Usa => String::from_str("usa"),
        }
    }
}

/// Which catalog a key belongs to: arena names, nation names, or one
/// nation's vehicle names.
#[derive(Debug, PartialEq, Eq, Structural, Copy, Clone)]
pub enum LocalizationCatalog {
    Arenas,
    Nations,
    Tanks(Nation),
}

/// The file name of a catalog under the localization directory.
pub open spec fn catalog_file_name_spec(catalog: LocalizationCatalog) -> Seq<char> {
    match catalog {
        LocalizationCatalog::Arenas => "arenas.po"@,
        LocalizationCatalog::Nations => "nations.po"@,
        LocalizationCatalog::Tanks(nation) => nation_name_spec(nation) + "_vehicles.po"@,
    }
}

impl LocalizationCatalog {
    /// The file name of the catalog's resource; opening and parsing the
    /// file is the surrounding application's part.
    pub fn file_name(&self) -> (r: String)
        ensures
            r@ == catalog_file_name_spec(*self),
    {
        match self {
            LocalizationCatalog::Arenas => String::from_str("arenas.po"),
            LocalizationCatalog::Nations => String::from_str("nations.po"),
            LocalizationCatalog::Tanks(nation) => nation.name().concat("_vehicles.po"),
        }
    }
}

/// Resolves display strings against loaded catalogs.
pub struct LocalizationReader {
    game_reader: GameReader,
}

impl LocalizationReader {
    /// The reader this one was created from.
    pub closed spec fn spec_game_reader(self) -> GameReader {
        self.game_reader
    }

    /// Creates a localization reader for a game reader.
    pub fn from(game_reader: &GameReader) -> (r: Self)
        ensures
            r.spec_game_reader() == *game_reader,
    {
        LocalizationReader { game_reader: game_reader.clone() }
    }

    /// Resolves a key against a loaded catalog: returns the literal key's
    /// text when the catalog translates it, otherwise retries once with the
    /// part of the key after its first underscore, and otherwise reports
    /// why nothing resolved.
    pub fn fetch(&self, catalog: &Catalog, key: &str) -> (r: Result<String, GameReadError>)
        ensures
            fetch_outcome(catalog@, key@, r),
    {
        let text = catalog.lookup(key);
        if !str_eq(text.as_str(), key) {
            return Ok(text);
        }
        let len = key.unicode_len();
        let mut i: usize = 0;
        while i < len
            invariant
                len == key@.len(),
                i <= len,
                forall|j: int| 0 <= j < i ==> key@[j] != '_',
                lookup_spec(catalog@, key@) == key@,
            decreases len - i,
        {
            if key.get_char(i) == '_' {
                proof {
                    lemma_first_delimiter_at(key@, i as int);
                }
                let short = key.substring_char(i + 1, len);
                proof {
                    assert(short@ =~= fallback_key(key@));
                }
                let second = catalog.lookup(short);
                if !str_eq(second.as_str(), short) {
                    return Ok(second);
                } else {
                    return Err(GameReadError::LocalizationKeyNotFound);
                }
            }
            i = i + 1;
        }
        proof {
            if has_delimiter(key@) {
                let j = choose|j: int| 0 <= j < key@.len() && key@[j] == '_';
                assert(key@[j] != '_');
            }
        }
        Err(GameReadError::CharacterNotFound('_', key.to_owned()))
    }
}

} // verus!
