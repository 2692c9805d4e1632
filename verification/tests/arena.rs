use game_reader::errors::GameReadError;
use game_reader::map::arena::{
    ArenaDefinition, ArenaMode, ArenaModeDesc, BasePositions, BasePositionsEntry, BoundingBox,
    Positions, Team, TeamBasePositions, TeamSpawnPoints, Vector2, VehicleCamouflageKind,
};

fn empty_desc() -> ArenaModeDesc {
    ArenaModeDesc::new(None, None, None, None, None)
}

fn desc_with_round_length(round_length: Option<i32>) -> ArenaModeDesc {
    ArenaModeDesc::new(None, None, None, None, round_length)
}

fn plain_doc() -> ArenaDefinition {
    ArenaDefinition::new(None, None, None, None, None)
}

#[test]
fn disjoint_mode_keys_resolve_to_no_modes() {
    let mut default_doc = plain_doc();
    default_doc.insert_mode(ArenaMode::Ctf, empty_desc());
    default_doc.insert_mode(ArenaMode::Epic, empty_desc());
    let mut override_doc = plain_doc();
    override_doc.insert_mode(ArenaMode::Domination, empty_desc());
    override_doc.insert_mode(ArenaMode::Sandbox, empty_desc());

    let resolved = ArenaDefinition::resolve(default_doc, override_doc);
    assert_eq!(resolved.available_modes().len(), 0);
}

#[test]
fn available_modes_is_the_intersection() {
    let mut default_doc = plain_doc();
    default_doc.insert_mode(ArenaMode::Ctf, empty_desc());
    default_doc.insert_mode(ArenaMode::Assault, empty_desc());
    default_doc.insert_mode(ArenaMode::Bootcamp, empty_desc());
    let mut override_doc = plain_doc();
    override_doc.insert_mode(ArenaMode::Assault, empty_desc());
    override_doc.insert_mode(ArenaMode::Ctf, empty_desc());
    override_doc.insert_mode(ArenaMode::Comp7, empty_desc());

    let resolved = ArenaDefinition::resolve(default_doc, override_doc);
    let modes = resolved.available_modes();
    assert_eq!(modes.len(), 2);
    assert!(modes.contains(&ArenaMode::Ctf));
    assert!(modes.contains(&ArenaMode::Assault));
    assert!(!modes.contains(&ArenaMode::Bootcamp));
    assert!(!modes.contains(&ArenaMode::Comp7));
}

#[test]
fn resolving_twice_yields_equal_definitions() {
    let make_default = || {
        let mut doc = ArenaDefinition::new(None, None, Some(900), Some(Team::Team1), None);
        doc.insert_mode(ArenaMode::Assault, desc_with_round_length(None));
        doc.insert_mode(ArenaMode::Ctf, desc_with_round_length(Some(300)));
        doc
    };
    let make_override = || {
        let mut doc = ArenaDefinition::new(None, Some(VehicleCamouflageKind::Winter), None, None, None);
        doc.insert_mode(ArenaMode::Assault, desc_with_round_length(Some(600)));
        doc.insert_mode(ArenaMode::Ctf, desc_with_round_length(None));
        doc
    };
    let first = ArenaDefinition::resolve(make_default(), make_override());
    let second = ArenaDefinition::resolve(make_default(), make_override());
    assert_eq!(first, second);
}

#[test]
fn mode_inherits_map_level_round_length() {
    let mut default_doc = ArenaDefinition::new(None, None, Some(900), None, None);
    default_doc.insert_mode(ArenaMode::Assault, desc_with_round_length(None));
    let mut override_doc = plain_doc();
    override_doc.insert_mode(ArenaMode::Assault, desc_with_round_length(None));

    let resolved = ArenaDefinition::resolve(default_doc, override_doc);
    let assault = resolved.get_mode(ArenaMode::Assault).unwrap();
    assert_eq!(assault.round_length().unwrap(), 900);
}

#[test]
fn inheritance_does_not_overwrite_a_mode_round_length() {
    let mut default_doc = ArenaDefinition::new(None, None, Some(900), None, None);
    default_doc.insert_mode(ArenaMode::Assault, desc_with_round_length(None));
    let mut override_doc = plain_doc();
    override_doc.insert_mode(ArenaMode::Assault, desc_with_round_length(Some(600)));

    let resolved = ArenaDefinition::resolve(default_doc, override_doc);
    let assault = resolved.get_mode(ArenaMode::Assault).unwrap();
    assert_eq!(assault.round_length().unwrap(), 600);
}

#[test]
fn absent_override_root_field_falls_back_to_default() {
    let default_doc = ArenaDefinition::new(None, None, None, Some(Team::Team1), None);
    let override_doc = plain_doc();

    let resolved = ArenaDefinition::resolve(default_doc, override_doc);
    assert_eq!(resolved.winner_if_timeout, Some(Team::Team1));
}

#[test]
fn set_override_root_field_wins_over_default() {
    let default_doc = ArenaDefinition::new(None, None, None, Some(Team::Team1), None);
    let override_doc = ArenaDefinition::new(None, None, None, Some(Team::Team2), None);

    let resolved = ArenaDefinition::resolve(default_doc, override_doc);
    assert_eq!(resolved.winner_if_timeout, Some(Team::Team2));
}

#[test]
fn end_to_end_resolution_scenario() {
    // The default document defines Assault and Ctf and a map-level round
    // length; the override defines Assault and Domination, gives Assault its
    // own round length and a timeout winner, and leaves the root untouched.
    let mut default_doc = ArenaDefinition::new(None, None, Some(900), None, None);
    default_doc.insert_mode(ArenaMode::Assault, empty_desc());
    default_doc.insert_mode(ArenaMode::Ctf, empty_desc());
    let mut override_doc = plain_doc();
    override_doc.insert_mode(
        ArenaMode::Assault,
        ArenaModeDesc::new(None, None, Some(Team::Team1), None, Some(600)),
    );
    override_doc.insert_mode(ArenaMode::Domination, empty_desc());

    let resolved = ArenaDefinition::resolve(default_doc, override_doc);

    let modes = resolved.available_modes();
    assert_eq!(modes, vec![ArenaMode::Assault]);

    let assault = resolved.get_mode(ArenaMode::Assault).unwrap();
    assert_eq!(assault.round_length().unwrap(), 600);
    assert_eq!(assault.winner_if_timeout, Some(Team::Team1));

    // The root keeps the default's round length: the override set none.
    assert_eq!(resolved.round_length().unwrap(), 900);

    let reread = resolved.get_mode(ArenaMode::Ctf);
    assert!(matches!(
        reread,
        Err(GameReadError::ArenaModeNotFound(ArenaMode::Ctf))
    ));
}

#[test]
fn mode_round_length_does_not_leak_into_the_root() {
    let mut default_doc = ArenaDefinition::new(None, None, Some(900), None, None);
    default_doc.insert_mode(ArenaMode::Assault, empty_desc());
    let mut override_doc = plain_doc();
    override_doc.insert_mode(ArenaMode::Assault, desc_with_round_length(Some(600)));

    let resolved = ArenaDefinition::resolve(default_doc, override_doc);
    let assault = resolved.get_mode(ArenaMode::Assault).unwrap();
    assert_eq!(assault.round_length().unwrap(), 600);
    assert_eq!(resolved.round_length().unwrap(), 900);
}

#[test]
fn base_positions_survive_the_merge_untouched() {
    let karelia_point = Vector2 { x: (-278.80505f32).to_bits(), y: 213.26526f32.to_bits() };
    let base_positions = vec![
        TeamBasePositions {
            team: Team::Team1,
            positions: vec![BasePositionsEntry {
                position: BasePositions::Position1,
                location: Some(karelia_point),
            }],
        },
        TeamBasePositions { team: Team::Team2, positions: vec![] },
    ];
    let mut default_doc = plain_doc();
    default_doc.insert_mode(ArenaMode::Assault, empty_desc());
    let mut override_doc = plain_doc();
    override_doc.insert_mode(
        ArenaMode::Assault,
        ArenaModeDesc::new(Some(base_positions.clone()), None, None, None, None),
    );

    let resolved = ArenaDefinition::resolve(default_doc, override_doc);
    let assault = resolved.get_mode(ArenaMode::Assault).unwrap();
    assert_eq!(assault.team_base_positions, Some(base_positions));
    let kept = assault.team_base_positions.as_ref().unwrap()[0].positions[0]
        .location
        .unwrap();
    assert_eq!(f32::from_bits(kept.x), -278.80505f32);
    assert_eq!(f32::from_bits(kept.y), 213.26526f32);
}

#[test]
fn bounding_box_accessor_reports_value_and_absence() {
    let bounding_box = BoundingBox {
        bottom_left: Vector2 { x: (-500f32).to_bits(), y: (-500f32).to_bits() },
        upper_right: Vector2 { x: 500f32.to_bits(), y: 500f32.to_bits() },
    };
    let with_box = ArenaDefinition::new(Some(bounding_box), None, None, None, None);
    assert_eq!(with_box.bounding_box().unwrap(), bounding_box);
    assert_eq!(
        f32::from_bits(with_box.bounding_box().unwrap().upper_right.x),
        500f32
    );

    let without = plain_doc();
    match without.bounding_box() {
        Err(GameReadError::ArenaKeyNotFound(key)) => assert_eq!(key, "bounding_box"),
        other => panic!("unexpected outcome: {:?}", other),
    }
}

#[test]
fn camouflage_accessor_reports_value_and_absence() {
    let with_kind = ArenaDefinition::new(None, Some(VehicleCamouflageKind::Summer), None, None, None);
    assert_eq!(
        with_kind.vehicle_camouflage_kind().unwrap(),
        VehicleCamouflageKind::Summer
    );

    let without = plain_doc();
    match without.vehicle_camouflage_kind() {
        Err(GameReadError::ArenaKeyNotFound(key)) => assert_eq!(key, "vehicle_camouflage_kind"),
        other => panic!("unexpected outcome: {:?}", other),
    }
}

#[test]
fn round_length_accessor_reports_absence() {
    let desc = desc_with_round_length(None);
    match desc.round_length() {
        Err(GameReadError::ArenaKeyNotFound(key)) => assert_eq!(key, "round_length"),
        other => panic!("unexpected outcome: {:?}", other),
    }
}

#[test]
fn inserting_a_mode_twice_keeps_the_later_record() {
    let mut doc = plain_doc();
    doc.insert_mode(ArenaMode::Ctf, desc_with_round_length(Some(100)));
    doc.insert_mode(ArenaMode::Ctf, desc_with_round_length(Some(200)));
    assert_eq!(doc.available_modes(), vec![ArenaMode::Ctf]);
    let ctf = doc.get_mode(ArenaMode::Ctf).unwrap();
    assert_eq!(ctf.round_length().unwrap(), 200);
}

#[test]
fn team_ids_map_to_teams() {
    assert_eq!(Team::from_id(1), Some(Team::Team1));
    assert_eq!(Team::from_id(2), Some(Team::Team2));
    assert_eq!(Team::from_id(0), None);
    assert_eq!(Team::from_id(3), None);
    assert_eq!(Team::from_id(-1), None);
}

#[test]
fn spawn_points_fall_back_to_the_default_record() {
    let spawn_points = TeamSpawnPoints {
        team1: Positions {
            positions: Some(vec![Vector2 { x: 1f32.to_bits(), y: 2f32.to_bits() }]),
        },
        team2: Positions { positions: None },
    };
    let mut default_doc = plain_doc();
    default_doc.insert_mode(
        ArenaMode::Ctf,
        ArenaModeDesc::new(None, Some(spawn_points), None, None, None),
    );
    let mut override_doc = plain_doc();
    override_doc.insert_mode(ArenaMode::Ctf, empty_desc());

    let resolved = ArenaDefinition::resolve(default_doc, override_doc);
    let ctf = resolved.get_mode(ArenaMode::Ctf).unwrap();
    let kept = ctf.team_spawn_points.as_ref().unwrap();
    assert_eq!(kept.team1.positions.as_ref().unwrap().len(), 1);
    assert!(kept.team2.positions.is_none());
}

#[test]
fn merged_mode_takes_default_fields_where_override_is_silent() {
    let mut default_doc = plain_doc();
    default_doc.insert_mode(
        ArenaMode::Assault,
        ArenaModeDesc::new(None, None, Some(Team::Team2), Some(Team::Team1), Some(450)),
    );
    let mut override_doc = plain_doc();
    override_doc.insert_mode(
        ArenaMode::Assault,
        ArenaModeDesc::new(None, None, Some(Team::Team1), None, None),
    );

    let resolved = ArenaDefinition::resolve(default_doc, override_doc);
    let assault = resolved.get_mode(ArenaMode::Assault).unwrap();
    assert_eq!(assault.winner_if_timeout, Some(Team::Team1));
    assert_eq!(assault.winner_if_extermination, Some(Team::Team1));
    assert_eq!(assault.round_length().unwrap(), 450);
}
