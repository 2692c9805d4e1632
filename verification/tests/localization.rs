use game_reader::errors::GameReadError;
use game_reader::game_reader::GameReader;
use game_reader::localization::{Catalog, CatalogEntry, LocalizationCatalog, Nation};

fn entry(id: &str, text: &str) -> CatalogEntry {
    CatalogEntry { id: id.to_string(), text: text.to_string() }
}

fn reader() -> GameReader {
    GameReader::connect("sources")
}

#[test]
fn lookup_returns_the_first_matching_text() {
    let catalog = Catalog {
        entries: vec![entry("ussr", "U.S.S.R."), entry("ussr", "Union")],
    };
    assert_eq!(catalog.lookup("ussr"), "U.S.S.R.");
}

#[test]
fn lookup_echoes_the_key_when_nothing_matches() {
    let catalog = Catalog { entries: vec![entry("ussr", "U.S.S.R.")] };
    assert_eq!(catalog.lookup("france"), "france");
}

#[test]
fn fetch_returns_literal_translation() {
    let catalog = Catalog { entries: vec![entry("ussr", "U.S.S.R.")] };
    let text = reader().localization().fetch(&catalog, "ussr").unwrap();
    assert_eq!(text, "U.S.S.R.");
}

#[test]
fn fetch_falls_back_to_the_short_key() {
    // "J16_ST_B1" is not catalogued, but "ST_B1" (everything after the
    // first underscore) is.
    let catalog = Catalog { entries: vec![entry("ST_B1", "STB-1")] };
    let text = reader().localization().fetch(&catalog, "J16_ST_B1").unwrap();
    assert_eq!(text, "STB-1");
}

#[test]
fn fetch_without_delimiter_reports_a_malformed_key() {
    let catalog = Catalog { entries: vec![] };
    let outcome = reader().localization().fetch(&catalog, "unknownkey");
    match outcome {
        Err(GameReadError::CharacterNotFound(c, key)) => {
            assert_eq!(c, '_');
            assert_eq!(key, "unknownkey");
        },
        other => panic!("unexpected outcome: {:?}", other),
    }
}

#[test]
fn fetch_reports_a_miss_when_the_fallback_misses_too() {
    let catalog = Catalog { entries: vec![entry("ST_B1", "STB-1")] };
    let outcome = reader().localization().fetch(&catalog, "J16_Type_61");
    assert!(matches!(outcome, Err(GameReadError::LocalizationKeyNotFound)));
}

#[test]
fn fetch_does_not_fall_back_past_the_first_delimiter() {
    // The fallback cuts at the first underscore and retries exactly once:
    // "J16_ST_B1" falls back to "ST_B1", never to "B1".
    let catalog = Catalog { entries: vec![entry("B1", "B-1")] };
    let outcome = reader().localization().fetch(&catalog, "J16_ST_B1");
    assert!(matches!(outcome, Err(GameReadError::LocalizationKeyNotFound)));
}

#[test]
fn nation_names_are_lowercase() {
    assert_eq!(Nation::Ussr.name(), "ussr");
    assert_eq!(Nation::France.name(), "france");
    assert_eq!(Nation::Multinational.name(), "multinational");
}

#[test]
fn catalog_file_names() {
    assert_eq!(LocalizationCatalog::Arenas.file_name(), "arenas.po");
    assert_eq!(LocalizationCatalog::Nations.file_name(), "nations.po");
    assert_eq!(
        LocalizationCatalog::Tanks(Nation::Japan).file_name(),
        "japan_vehicles.po"
    );
}

#[test]
fn arena_names_resolve_through_their_catalog() {
    let catalog = Catalog { entries: vec![entry("01_karelia/name", "Karelia")] };
    let text = reader().localization().fetch(&catalog, "01_karelia/name").unwrap();
    assert_eq!(text, "Karelia");
}

#[test]
fn vehicle_names_resolve_through_their_catalog() {
    let catalog = Catalog {
        entries: vec![entry("F108_Panhard_EBR_105", "Panhard EBR 105")],
    };
    let text = reader()
        .localization()
        .fetch(&catalog, "F108_Panhard_EBR_105")
        .unwrap();
    assert_eq!(text, "Panhard EBR 105");
}

#[test]
fn fetch_handles_subkey_ids() {
    let catalog = Catalog {
        entries: vec![entry("ussr", "U.S.S.R."), entry("ussr/genetiveCase", "Soviet")],
    };
    let text = reader()
        .localization()
        .fetch(&catalog, "ussr/genetiveCase")
        .unwrap();
    assert_eq!(text, "Soviet");
}
