//! The arena data model and the layered resolution engine.
//!
//! An [`ArenaDefinition`] value plays two roles: an unresolved arena document
//! (the shared default document, or a map-specific override document, both
//! handed in already parsed) and the fully resolved definition produced by
//! [`ArenaDefinition::resolve`].  Resolution layers the override document
//! over the default document: at the document root every optional field is
//! taken from the override when present and from the default otherwise; the
//! per-mode records are kept exactly for the mode keys both documents
//! define, merged field by field with the same precedence; and a final
//! inheritance pass fills each retained mode's still-absent round length and
//! winner fields from the resolved root values.

use vstd::prelude::*;
use vstd::string::*;
use crate::errors::GameReadError;

verus! {

/// A 2D point.  Coordinates are carried as the bit patterns of 32-bit
/// IEEE-754 floats; the resolution logic only moves them around and never
/// does arithmetic on them, so the bit pattern is all it needs.
#[derive(Debug, PartialEq, Eq, Structural, Copy, Clone)]
pub struct Vector2 {
    pub x: u32,
    pub y: u32,
}

/// The playable rectangle of a map.
#[derive(Debug, PartialEq, Eq, Structural, Copy, Clone)]
pub struct BoundingBox {
    pub bottom_left: Vector2,
    pub upper_right: Vector2,
}

/// Keys into a team's base-location record.
#[derive(Debug, PartialEq, Eq, Structural, Hash, Copy, Clone)]
pub enum BasePositions {
    Position1,
    Position2,
}

/// One of the two sides of a battle.
#[derive(Debug, PartialEq, Eq, Structural, Hash, Copy, Clone)]
pub enum Team {
    Team1,
    Team2,
}

impl Team {
    /// The team a raw document integer denotes: `1` and `2` name the two
    /// teams, any other value means "absent".
    pub fn from_id(id: i32) -> (r: Option<Team>)
        ensures
            r == (if id == 1 {
                Some(Team::Team1)
            } else if id == 2 {
                Some(Team::Team2)
            } else {
                None::<Team>
            }),
    {
        if id == 1 {
            Some(Team::Team1)
        } else if id == 2 {
            Some(Team::Team2)
        } else {
            None
        }
    }
}

/// A base location of one team: the key and the (possibly absent) point.
#[derive(Debug, PartialEq, Copy, Clone)]
pub struct BasePositionsEntry {
    pub position: BasePositions,
    pub location: Option<Vector2>,
}

/// The base locations configured for one team.
#[derive(Debug, PartialEq, Clone)]
pub struct TeamBasePositions {
    pub team: Team,
    pub positions: Vec<BasePositionsEntry>,
}

/// An optional sequence of spawn points.
#[derive(Debug, PartialEq, Clone)]
pub struct Positions {
    pub positions: Option<Vec<Vector2>>,
}

/// The spawn points of both teams.
#[derive(Debug, PartialEq, Clone)]
pub struct TeamSpawnPoints {
    pub team1: Positions,
    pub team2: Positions,
}

/// The per-mode override record.  Every field is independently optional;
/// absence means "inherit from the map-level default".
#[derive(Debug, PartialEq)]
pub struct ArenaModeDesc {
    pub team_base_positions: Option<Vec<TeamBasePositions>>,
    pub team_spawn_points: Option<TeamSpawnPoints>,
    pub winner_if_timeout: Option<Team>,
    pub winner_if_extermination: Option<Team>,
    round_length: Option<i32>,
}

/// The camouflage family a map's vehicles wear.
#[derive(Debug, PartialEq, Eq, Structural, Copy, Clone)]
pub enum VehicleCamouflageKind {
    Summer,
    Winter,
    Desert,
}

/// The closed set of battle modes a map can configure.
#[derive(Debug, PartialEq, Eq, Structural, Hash, Copy, Clone)]
pub enum ArenaMode {
    Ctf,
    Ctf2,
    Ctf30x30,
    Domination,
    Domination2,
    Domination30x30,
    Assault,
    Assault2,
    Bootcamp,
    MapsTraining,
    Sandbox,
    Comp7,
    Epic,
}

/// One mode's entry in an arena document: the mode key and its record.
#[derive(Debug, PartialEq)]
pub struct ArenaModeEntry {
    pub mode: ArenaMode,
    pub desc: ArenaModeDesc,
}

/// An arena document, and equally a resolved arena definition.
#[derive(Debug, PartialEq)]
pub struct ArenaDefinition {
    bounding_box: Option<BoundingBox>,
    gameplay_types: Vec<ArenaModeEntry>,
    vehicle_camouflage_kind: Option<VehicleCamouflageKind>,
    round_length: Option<i32>,
    pub winner_if_timeout: Option<Team>,
    pub winner_if_extermination: Option<Team>,
}

// ---------------------------------------------------------------------------
// The mathematical model: views of the data types.
// ---------------------------------------------------------------------------

/// Model of [`TeamBasePositions`].
pub ghost struct TeamBasePositionsView {
    pub team: Team,
    pub positions: Seq<BasePositionsEntry>,
}

impl View for TeamBasePositions {
    type V = TeamBasePositionsView;

    open spec fn view(&self) -> TeamBasePositionsView {
        TeamBasePositionsView { team: self.team, positions: self.positions@ }
    }
}

impl View for Positions {
    type V = Option<Seq<Vector2>>;

    open spec fn view(&self) -> Option<Seq<Vector2>> {
        match self.positions {
            Some(v) => Some(v@),
            None => None,
        }
    }
}

/// Model of [`TeamSpawnPoints`].
pub ghost struct TeamSpawnPointsView {
    pub team1: Option<Seq<Vector2>>,
    pub team2: Option<Seq<Vector2>>,
}

impl View for TeamSpawnPoints {
    type V = TeamSpawnPointsView;

    open spec fn view(&self) -> TeamSpawnPointsView {
        TeamSpawnPointsView { team1: self.team1@, team2: self.team2@ }
    }
}

/// Model of [`ArenaModeDesc`].
pub ghost struct ArenaModeDescView {
    pub team_base_positions: Option<Seq<TeamBasePositionsView>>,
    pub team_spawn_points: Option<TeamSpawnPointsView>,
    pub winner_if_timeout: Option<Team>,
    pub winner_if_extermination: Option<Team>,
    pub round_length: Option<i32>,
}

impl View for ArenaModeDesc {
    type V = ArenaModeDescView;

    closed spec fn view(&self) -> ArenaModeDescView {
        ArenaModeDescView {
            team_base_positions: match self.team_base_positions {
                Some(v) => Some(v@.map_values(|t: TeamBasePositions| t@)),
                None => None,
            },
            team_spawn_points: match self.team_spawn_points {
                Some(ref s) => Some(s@),
                None => None,
            },
            winner_if_timeout: self.winner_if_timeout,
            winner_if_extermination: self.winner_if_extermination,
            round_length: self.round_length,
        }
    }
}

/// Model of [`ArenaDefinition`]: the per-mode records as a map from mode key
/// to record model, later entries of the document overwriting earlier ones
/// with the same key.
pub ghost struct ArenaDefinitionView {
    pub bounding_box: Option<BoundingBox>,
    pub modes: Map<ArenaMode, ArenaModeDescView>,
    pub vehicle_camouflage_kind: Option<VehicleCamouflageKind>,
    pub round_length: Option<i32>,
    pub winner_if_timeout: Option<Team>,
    pub winner_if_extermination: Option<Team>,
}

/// The map a sequence of mode entries denotes: entries are inserted in
/// order, so a later entry with the same key overwrites an earlier one.
pub open spec fn modes_of(entries: Seq<ArenaModeEntry>) -> Map<ArenaMode, ArenaModeDescView>
    decreases entries.len(),
{
    if entries.len() == 0 {
        Map::empty()
    } else {
        modes_of(entries.drop_last()).insert(entries.last().mode, entries.last().desc@)
    }
}

impl View for ArenaDefinition {
    type V = ArenaDefinitionView;

    closed spec fn view(&self) -> ArenaDefinitionView {
        ArenaDefinitionView {
            bounding_box: self.bounding_box,
            modes: modes_of(self.gameplay_types@),
            vehicle_camouflage_kind: self.vehicle_camouflage_kind,
            round_length: self.round_length,
            winner_if_timeout: self.winner_if_timeout,
            winner_if_extermination: self.winner_if_extermination,
        }
    }
}

// ---------------------------------------------------------------------------
// Facts about `modes_of`.
// ---------------------------------------------------------------------------

/// Whether a sequence of mode entries holds each mode key at most once.
pub open spec fn distinct_modes(entries: Seq<ArenaModeEntry>) -> bool {
    forall|i: int, j: int|
        0 <= i < j < entries.len() ==> entries[i].mode != entries[j].mode
}

/// A mode key is in the map exactly when some entry carries it.
pub proof fn lemma_modes_of_dom(entries: Seq<ArenaModeEntry>, mode: ArenaMode)
    ensures
        modes_of(entries).dom().contains(mode) <==> exists|i: int|
            0 <= i < entries.len() && entries[i].mode == mode,
    decreases entries.len(),
{
    if entries.len() > 0 {
        lemma_modes_of_dom(entries.drop_last(), mode);
        if entries.last().mode == mode {
            assert(entries[entries.len() - 1].mode == mode);
        } else if exists|i: int| 0 <= i < entries.len() && entries[i].mode == mode {
            let i = choose|i: int| 0 <= i < entries.len() && entries[i].mode == mode;
            assert(entries.drop_last()[i] == entries[i]);
        }
    }
}

/// In a sequence with distinct mode keys, the map sends each entry's mode to
/// that entry's record.
pub proof fn lemma_modes_of_index(entries: Seq<ArenaModeEntry>, i: int)
    requires
        distinct_modes(entries),
        0 <= i < entries.len(),
    ensures
        modes_of(entries).dom().contains(entries[i].mode),
        modes_of(entries)[entries[i].mode] == entries[i].desc@,
    decreases entries.len(),
{
    if i == entries.len() - 1 {
    } else {
        lemma_modes_of_index(entries.drop_last(), i);
        assert(entries.drop_last()[i] == entries[i]);
    }
}

/// Appending an entry inserts its mode into the map.
pub proof fn lemma_modes_of_push(entries: Seq<ArenaModeEntry>, entry: ArenaModeEntry)
    ensures
        modes_of(entries.push(entry)) == modes_of(entries).insert(entry.mode, entry.desc@),
{
    assert(entries.push(entry).drop_last() =~= entries);
}

/// Replacing the record of an entry whose mode already stands alone in the
/// sequence overwrites that mode's image in the map.
pub proof fn lemma_modes_of_update(entries: Seq<ArenaModeEntry>, i: int, entry: ArenaModeEntry)
    requires
        distinct_modes(entries),
        0 <= i < entries.len(),
        entries[i].mode == entry.mode,
    ensures
        modes_of(entries.update(i, entry)) == modes_of(entries).insert(entry.mode, entry.desc@),
    decreases entries.len(),
{
    let updated = entries.update(i, entry);
    if i == entries.len() - 1 {
        assert(updated.drop_last() =~= entries.drop_last());
        lemma_modes_of_dom(entries.drop_last(), entry.mode);
        assert(forall|j: int|
            0 <= j < entries.drop_last().len() ==> entries.drop_last()[j] == entries[j]);
        assert(!modes_of(entries.drop_last()).dom().contains(entry.mode));
        assert(modes_of(updated) == modes_of(entries.drop_last()).insert(entry.mode, entry.desc@));
        assert(modes_of(entries) == modes_of(entries.drop_last()).insert(
            entry.mode,
            entries.last().desc@,
        ));
        assert(modes_of(entries).insert(entry.mode, entry.desc@) =~= modes_of(
            entries.drop_last(),
        ).insert(entry.mode, entry.desc@));
    } else {
        assert(updated.drop_last() =~= entries.drop_last().update(i, entry));
        assert(forall|j: int|
            0 <= j < entries.drop_last().len() ==> entries.drop_last()[j] == entries[j]);
        lemma_modes_of_update(entries.drop_last(), i, entry);
        assert(updated.last() == entries.last());
        assert(entries.last().mode != entry.mode);
        assert(modes_of(updated) == modes_of(entries.drop_last()).insert(
            entry.mode,
            entry.desc@,
        ).insert(entries.last().mode, entries.last().desc@));
        assert(modes_of(entries.drop_last()).insert(entry.mode, entry.desc@).insert(
            entries.last().mode,
            entries.last().desc@,
        ) =~= modes_of(entries.drop_last()).insert(
            entries.last().mode,
            entries.last().desc@,
        ).insert(entry.mode, entry.desc@));
    }
}

/// Removing an entry of a sequence with distinct mode keys removes exactly
/// that entry's mode from the map.
pub proof fn lemma_modes_of_remove(entries: Seq<ArenaModeEntry>, i: int)
    requires
        distinct_modes(entries),
        0 <= i < entries.len(),
    ensures
        modes_of(entries.remove(i)) == modes_of(entries).remove(entries[i].mode),
        distinct_modes(entries.remove(i)),
    decreases entries.len(),
{
    let shorter = entries.remove(i);
    let mode = entries[i].mode;
    entries.remove_ensures(i);
    assert forall|p: int, q: int| 0 <= p < q < shorter.len() implies shorter[p].mode
        != shorter[q].mode by {
        assert(shorter[p] == (if p < i { entries[p] } else { entries[p + 1] }));
        assert(shorter[q] == (if q < i { entries[q] } else { entries[q + 1] }));
    }
    if i == entries.len() - 1 {
        assert(shorter =~= entries.drop_last());
        lemma_modes_of_dom(entries.drop_last(), mode);
        assert(forall|j: int|
            0 <= j < entries.drop_last().len() ==> entries.drop_last()[j] == entries[j]);
        assert(!modes_of(entries.drop_last()).dom().contains(mode));
        assert(modes_of(entries).remove(mode) =~= modes_of(entries.drop_last()));
    } else {
        assert(forall|j: int|
            0 <= j < entries.drop_last().len() ==> entries.drop_last()[j] == entries[j]);
        lemma_modes_of_remove(entries.drop_last(), i);
        assert(shorter.drop_last() =~= entries.drop_last().remove(i));
        assert(shorter.last() == entries.last());
        assert(modes_of(shorter) == modes_of(entries.drop_last()).remove(mode).insert(
            entries.last().mode,
            entries.last().desc@,
        ));
        assert(entries.last().mode != mode);
        assert(modes_of(entries.drop_last()).remove(mode).insert(
            entries.last().mode,
            entries.last().desc@,
        ) =~= modes_of(entries.drop_last()).insert(
            entries.last().mode,
            entries.last().desc@,
        ).remove(mode));
    }
}

/// The set of mode keys a sequence of entries carries.
pub open spec fn mode_set(entries: Seq<ArenaModeEntry>) -> Set<ArenaMode> {
    Set::new(
        |mode: ArenaMode| exists|i: int| 0 <= i < entries.len() && entries[i].mode == mode,
    )
}

// ---------------------------------------------------------------------------
// The resolution rules, as spec functions.
// ---------------------------------------------------------------------------

/// The field-level precedence rule: the override's value when it is present,
/// the default's value otherwise.
pub open spec fn merge_optional<T>(override_value: Option<T>, default_value: Option<T>) -> Option<
    T,
> {
    if override_value is Some {
        override_value
    } else {
        default_value
    }
}

/// One mode's record after the field-by-field merge of the override's record
/// with the default's record.
pub open spec fn merged_mode_desc(
    override_desc: ArenaModeDescView,
    default_desc: ArenaModeDescView,
) -> ArenaModeDescView {
    ArenaModeDescView {
        team_base_positions: merge_optional(
            override_desc.team_base_positions,
            default_desc.team_base_positions,
        ),
        team_spawn_points: merge_optional(
            override_desc.team_spawn_points,
            default_desc.team_spawn_points,
        ),
        winner_if_timeout: merge_optional(
            override_desc.winner_if_timeout,
            default_desc.winner_if_timeout,
        ),
        winner_if_extermination: merge_optional(
            override_desc.winner_if_extermination,
            default_desc.winner_if_extermination,
        ),
        round_length: merge_optional(override_desc.round_length, default_desc.round_length),
    }
}

/// One mode's record after the inheritance pass: a round length or winner
/// field that is still absent is copied from the resolved map-level value.
pub open spec fn inherited_mode_desc(
    desc: ArenaModeDescView,
    root_round_length: Option<i32>,
    root_winner_if_timeout: Option<Team>,
    root_winner_if_extermination: Option<Team>,
) -> ArenaModeDescView {
    ArenaModeDescView {
        team_base_positions: desc.team_base_positions,
        team_spawn_points: desc.team_spawn_points,
        winner_if_timeout: merge_optional(desc.winner_if_timeout, root_winner_if_timeout),
        winner_if_extermination: merge_optional(
            desc.winner_if_extermination,
            root_winner_if_extermination,
        ),
        round_length: merge_optional(desc.round_length, root_round_length),
    }
}

/// What resolution returns: every root field follows the precedence rule;
/// the mode map holds exactly the mode keys both documents define, each
/// merged field by field and then completed by the inheritance pass from
/// the resolved root values.
pub open spec fn resolve_spec(
    default_doc: ArenaDefinitionView,
    override_doc: ArenaDefinitionView,
) -> ArenaDefinitionView {
    let round_length = merge_optional(override_doc.round_length, default_doc.round_length);
    let winner_if_timeout = merge_optional(
        override_doc.winner_if_timeout,
        default_doc.winner_if_timeout,
    );
    let winner_if_extermination = merge_optional(
        override_doc.winner_if_extermination,
        default_doc.winner_if_extermination,
    );
    ArenaDefinitionView {
        bounding_box: merge_optional(override_doc.bounding_box, default_doc.bounding_box),
        vehicle_camouflage_kind: merge_optional(
            override_doc.vehicle_camouflage_kind,
            default_doc.vehicle_camouflage_kind,
        ),
        round_length,
        winner_if_timeout,
        winner_if_extermination,
        modes: Map::new(
            |mode: ArenaMode|
                override_doc.modes.dom().contains(mode) && default_doc.modes.dom().contains(mode),
            |mode: ArenaMode|
                inherited_mode_desc(
                    merged_mode_desc(override_doc.modes[mode], default_doc.modes[mode]),
                    round_length,
                    winner_if_timeout,
                    winner_if_extermination,
                ),
        ),
    }
}

// ---------------------------------------------------------------------------
// The executable engine.
// ---------------------------------------------------------------------------

/// The executable form of [`merge_optional`].
fn merge_opt<T>(override_value: Option<T>, default_value: Option<T>) -> (r: Option<T>)
    ensures
        r == merge_optional(override_value, default_value),
{
    match override_value {
        Some(v) => Some(v),
        None => default_value,
    }
}

/// Merges one mode's override record with its default record, field by field.
fn merge_mode_desc(override_desc: ArenaModeDesc, default_desc: ArenaModeDesc) -> (r: ArenaModeDesc)
    ensures
        r@ == merged_mode_desc(override_desc@, default_desc@),
{
    let ArenaModeDesc {
        team_base_positions: o_team_base_positions,
        team_spawn_points: o_team_spawn_points,
        winner_if_timeout: o_winner_if_timeout,
        winner_if_extermination: o_winner_if_extermination,
        round_length: o_round_length,
    } = override_desc;
    let ArenaModeDesc {
        team_base_positions: d_team_base_positions,
        team_spawn_points: d_team_spawn_points,
        winner_if_timeout: d_winner_if_timeout,
        winner_if_extermination: d_winner_if_extermination,
        round_length: d_round_length,
    } = default_desc;
    ArenaModeDesc {
        team_base_positions: merge_opt(o_team_base_positions, d_team_base_positions),
        team_spawn_points: merge_opt(o_team_spawn_points, d_team_spawn_points),
        winner_if_timeout: merge_opt(o_winner_if_timeout, d_winner_if_timeout),
        winner_if_extermination: merge_opt(o_winner_if_extermination, d_winner_if_extermination),
        round_length: merge_opt(o_round_length, d_round_length),
    }
}

/// Applies the inheritance pass to one mode's merged record.
fn inherit_mode_desc(
    desc: ArenaModeDesc,
    root_round_length: Option<i32>,
    root_winner_if_timeout: Option<Team>,
    root_winner_if_extermination: Option<Team>,
) -> (r: ArenaModeDesc)
    ensures
        r@ == inherited_mode_desc(
            desc@,
            root_round_length,
            root_winner_if_timeout,
            root_winner_if_extermination,
        ),
{
    let ArenaModeDesc {
        team_base_positions,
        team_spawn_points,
        winner_if_timeout,
        winner_if_extermination,
        round_length,
    } = desc;
    ArenaModeDesc {
        team_base_positions,
        team_spawn_points,
        winner_if_timeout: merge_opt(winner_if_timeout, root_winner_if_timeout),
        winner_if_extermination: merge_opt(winner_if_extermination, root_winner_if_extermination),
        round_length: merge_opt(round_length, root_round_length),
    }
}

/// The index of some entry carrying the given mode, if one exists.
fn find_mode_index(entries: &Vec<ArenaModeEntry>, mode: ArenaMode) -> (r: Option<usize>)
    ensures
        match r {
            Some(i) => i < entries@.len() && entries@[i as int].mode == mode,
            None => forall|i: int| 0 <= i < entries@.len() ==> entries@[i].mode != mode,
        },
{
    let mut i: usize = 0;
    while i < entries.len()
        invariant
            i <= entries@.len(),
            forall|j: int| 0 <= j < i ==> entries@[j].mode != mode,
        decreases entries@.len() - i,
    {
        if entries[i].mode == mode {
            return Some(i);
        }
        i = i + 1;
    }
    None
}

impl ArenaModeDesc {
    /// Builds one mode's record from its optional fields.
    pub fn new(
        team_base_positions: Option<Vec<TeamBasePositions>>,
        team_spawn_points: Option<TeamSpawnPoints>,
        winner_if_timeout: Option<Team>,
        winner_if_extermination: Option<Team>,
        round_length: Option<i32>,
    ) -> (r: ArenaModeDesc)
        ensures
            r@ == (ArenaModeDescView {
                team_base_positions: match team_base_positions {
                    Some(v) => Some(v@.map_values(|t: TeamBasePositions| t@)),
                    None => None,
                },
                team_spawn_points: match team_spawn_points {
                    Some(s) => Some(s@),
                    None => None,
                },
                winner_if_timeout,
                winner_if_extermination,
                round_length,
            }),
    {
        ArenaModeDesc {
            team_base_positions,
            team_spawn_points,
            winner_if_timeout,
            winner_if_extermination,
            round_length,
        }
    }

    /// The mode's resolved round length, or an explicit not-found error when
    /// it is still absent after inheritance.
    pub fn round_length(&self) -> (r: Result<i32, GameReadError>)
        ensures
            self@.round_length is Some ==> r == Ok::<i32, GameReadError>(self@.round_length->0),
            self@.round_length is None ==> (r matches Err(e) && e matches
                GameReadError::ArenaKeyNotFound(k) && k@ == "round_length"@),
    {
        match self.round_length {
            Some(v) => Ok(v),
            None => Err(GameReadError::ArenaKeyNotFound(String::from_str("round_length"))),
        }
    }
}

impl ArenaDefinition {
    /// Whether the document holds each mode key at most once.  Constructors
    /// establish this and every operation preserves it.
    pub closed spec fn well_formed(self) -> bool {
        distinct_modes(self.gameplay_types@)
    }

    /// The mode keys in document order.
    pub closed spec fn mode_order(self) -> Seq<ArenaMode> {
        self.gameplay_types@.map_values(|e: ArenaModeEntry| e.mode)
    }

    /// Builds a document from its root fields, with no modes yet.
    pub fn new(
        bounding_box: Option<BoundingBox>,
        vehicle_camouflage_kind: Option<VehicleCamouflageKind>,
        round_length: Option<i32>,
        winner_if_timeout: Option<Team>,
        winner_if_extermination: Option<Team>,
    ) -> (r: ArenaDefinition)
        ensures
            r.well_formed(),
            r@ == (ArenaDefinitionView {
                bounding_box,
                modes: Map::empty(),
                vehicle_camouflage_kind,
                round_length,
                winner_if_timeout,
                winner_if_extermination,
            }),
    {
        ArenaDefinition {
            bounding_box,
            gameplay_types: Vec::new(),
            vehicle_camouflage_kind,
            round_length,
            winner_if_timeout,
            winner_if_extermination,
        }
    }

    /// Adds one mode's record to the document, overwriting the record of a
    /// mode that is already present, as a later entry of the underlying
    /// document would.
    pub fn insert_mode(&mut self, mode: ArenaMode, desc: ArenaModeDesc)
        requires
            old(self).well_formed(),
        ensures
            final(self).well_formed(),
            final(self)@.modes == old(self)@.modes.insert(mode, desc@),
            final(self)@.bounding_box == old(self)@.bounding_box,
            final(self)@.vehicle_camouflage_kind == old(self)@.vehicle_camouflage_kind,
            final(self)@.round_length == old(self)@.round_length,
            final(self)@.winner_if_timeout == old(self)@.winner_if_timeout,
            final(self)@.winner_if_extermination == old(self)@.winner_if_extermination,
    {
        let entry = ArenaModeEntry { mode, desc };
        let ghost entry_snapshot = entry;
        match find_mode_index(&self.gameplay_types, mode) {
            Some(j) => {
                let ghost before = self.gameplay_types@;
                let _ = self.gameplay_types.remove(j);
                self.gameplay_types.insert(j, entry);
                proof {
                    assert(self.gameplay_types@ =~= before.update(j as int, entry_snapshot));
                    lemma_modes_of_update(before, j as int, entry_snapshot);
                    assert forall|p: int, q: int|
                        0 <= p < q < self.gameplay_types@.len() implies self.gameplay_types@[p].mode
                        != self.gameplay_types@[q].mode by {
                        assert(before[p].mode != before[q].mode);
                    }
                }
            },
            None => {
                let ghost before = self.gameplay_types@;
                self.gameplay_types.push(entry);
                proof {
                    lemma_modes_of_push(before, entry_snapshot);
                    assert forall|p: int, q: int|
                        0 <= p < q < self.gameplay_types@.len() implies self.gameplay_types@[p].mode
                        != self.gameplay_types@[q].mode by {
                        assert(self.gameplay_types@ == before.push(entry_snapshot));
                        if q < before.len() {
                            assert(self.gameplay_types@[p] == before[p]);
                            assert(self.gameplay_types@[q] == before[q]);
                        } else {
                            assert(self.gameplay_types@[p] == before[p]);
                            assert(self.gameplay_types@[q].mode == mode);
                        }
                    }
                }
            },
        }
    }

    /// The map's playable rectangle, or an explicit not-found error when the
    /// resolved document does not set one.
    pub fn bounding_box(&self) -> (r: Result<BoundingBox, GameReadError>)
        ensures
            self@.bounding_box is Some ==> r == Ok::<BoundingBox, GameReadError>(
                self@.bounding_box->0,
            ),
            self@.bounding_box is None ==> (r matches Err(e) && e matches
                GameReadError::ArenaKeyNotFound(k) && k@ == "bounding_box"@),
    {
        match self.bounding_box {
            Some(v) => Ok(v),
            None => Err(GameReadError::ArenaKeyNotFound(String::from_str("bounding_box"))),
        }
    }

    /// The map-level round length, or an explicit not-found error when the
    /// resolved document does not set one.  Modes that set no round length
    /// of their own inherit this value during resolution.
    pub fn round_length(&self) -> (r: Result<i32, GameReadError>)
        ensures
            self@.round_length is Some ==> r == Ok::<i32, GameReadError>(self@.round_length->0),
            self@.round_length is None ==> (r matches Err(e) && e matches
                GameReadError::ArenaKeyNotFound(k) && k@ == "round_length"@),
    {
        match self.round_length {
            Some(v) => Ok(v),
            None => Err(GameReadError::ArenaKeyNotFound(String::from_str("round_length"))),
        }
    }

    /// The camouflage family the map's vehicles wear, or an explicit
    /// not-found error when the resolved document does not set one.
    pub fn vehicle_camouflage_kind(&self) -> (r: Result<VehicleCamouflageKind, GameReadError>)
        ensures
            self@.vehicle_camouflage_kind is Some ==> r == Ok::<
                VehicleCamouflageKind,
                GameReadError,
            >(self@.vehicle_camouflage_kind->0),
            self@.vehicle_camouflage_kind is None ==> (r matches Err(e) && e matches
                GameReadError::ArenaKeyNotFound(k) && k@ == "vehicle_camouflage_kind"@),
    {
        match self.vehicle_camouflage_kind {
            Some(v) => Ok(v),
            None => Err(
                GameReadError::ArenaKeyNotFound(String::from_str("vehicle_camouflage_kind")),
            ),
        }
    }

    /// The configured mode keys, in document order.  On a well-formed
    /// definition the result holds exactly the keys of the mode map.
    pub fn available_modes(&self) -> (r: Vec<ArenaMode>)
        ensures
            r@ == self.mode_order(),
            self.well_formed() ==> (forall|mode: ArenaMode|
                r@.contains(mode) <==> self@.modes.dom().contains(mode)),
    {
        let mut result: Vec<ArenaMode> = Vec::new();
        let mut i: usize = 0;
        while i < self.gameplay_types.len()
            invariant
                i <= self.gameplay_types@.len(),
                result@ =~= self.mode_order().take(i as int),
            decreases self.gameplay_types@.len() - i,
        {
            result.push(self.gameplay_types[i].mode);
            proof {
                assert(result@ =~= self.mode_order().take(i as int + 1));
            }
            i = i + 1;
        }
        proof {
            assert(result@ =~= self.mode_order());
            if self.well_formed() {
                assert forall|mode: ArenaMode|
                    result@.contains(mode) <==> self@.modes.dom().contains(mode) by {
                    lemma_modes_of_dom(self.gameplay_types@, mode);
                    if result@.contains(mode) {
                        let i = choose|i: int| 0 <= i < result@.len() && result@[i] == mode;
                        assert(self.gameplay_types@[i].mode == mode);
                    }
                    if self@.modes.dom().contains(mode) {
                        let i = choose|i: int|
                            0 <= i < self.gameplay_types@.len() && self.gameplay_types@[i].mode
                                == mode;
                        assert(result@[i] == mode);
                    }
                }
            }
        }
        result
    }

    /// The record of one configured mode, or an explicit not-found error for
    /// a mode outside the resolved intersection.
    pub fn get_mode(&self, mode: ArenaMode) -> (r: Result<&ArenaModeDesc, GameReadError>)
        requires
            self.well_formed(),
        ensures
            self@.modes.dom().contains(mode) ==> r is Ok && r->Ok_0@ == self@.modes[mode],
            !self@.modes.dom().contains(mode) ==> (r matches Err(e) && e
                == GameReadError::ArenaModeNotFound(mode)),
    {
        match find_mode_index(&self.gameplay_types, mode) {
            Some(i) => {
                proof {
                    lemma_modes_of_index(self.gameplay_types@, i as int);
                }
                Ok(&self.gameplay_types[i].desc)
            },
            None => {
                proof {
                    lemma_modes_of_dom(self.gameplay_types@, mode);
                }
                Err(GameReadError::ArenaModeNotFound(mode))
            },
        }
    }

    /// Resolves a map's arena: layers the override document over the default
    /// document, keeps exactly the modes both documents define, and lets
    /// each kept mode inherit the resolved map-level round length and winner
    /// fields where its own are absent.
    pub fn resolve(default_doc: ArenaDefinition, override_doc: ArenaDefinition) -> (r:
        ArenaDefinition)
        requires
            default_doc.well_formed(),
            override_doc.well_formed(),
        ensures
            r.well_formed(),
            r@ == resolve_spec(default_doc@, override_doc@),
    {
        let ghost d0 = default_doc@;
        let ghost o0 = override_doc@;
        let ArenaDefinition {
            bounding_box: d_bounding_box,
            gameplay_types: d_modes,
            vehicle_camouflage_kind: d_camouflage,
            round_length: d_round_length,
            winner_if_timeout: d_winner_if_timeout,
            winner_if_extermination: d_winner_if_extermination,
        } = default_doc;
        let ArenaDefinition {
            bounding_box: o_bounding_box,
            gameplay_types: o_modes,
            vehicle_camouflage_kind: o_camouflage,
            round_length: o_round_length,
            winner_if_timeout: o_winner_if_timeout,
            winner_if_extermination: o_winner_if_extermination,
        } = override_doc;
        let mut d_modes = d_modes;
        let mut o_modes = o_modes;
        let ghost d_full = d_modes@;
        let ghost o_full = o_modes@;

        // The map-level fields are fully resolved before any mode is merged;
        // the inheritance pass below reads only these resolved values.
        let bounding_box = merge_opt(o_bounding_box, d_bounding_box);
        let vehicle_camouflage_kind = merge_opt(o_camouflage, d_camouflage);
        let round_length = merge_opt(o_round_length, d_round_length);
        let winner_if_timeout = merge_opt(o_winner_if_timeout, d_winner_if_timeout);
        let winner_if_extermination = merge_opt(
            o_winner_if_extermination,
            d_winner_if_extermination,
        );
        let ghost target = resolve_spec(d0, o0).modes;

        let mut merged: Vec<ArenaModeEntry> = Vec::new();
        proof {
            assert(o_full.take(o_full.len() as int) =~= o_full);
            assert(o_full.skip(o_full.len() as int) =~= Seq::<ArenaModeEntry>::empty());
            assert(mode_set(o_full.skip(o_full.len() as int)) =~= Set::<ArenaMode>::empty());
            assert(modes_of(d_modes@).remove_keys(Set::<ArenaMode>::empty()) =~= modes_of(
                d_modes@,
            ));
            assert(target.restrict(Set::<ArenaMode>::empty()) =~= modes_of(merged@));
        }
        while o_modes.len() > 0
            invariant
                distinct_modes(o_full),
                distinct_modes(d_full),
                o_modes@.len() <= o_full.len(),
                o_modes@ == o_full.take(o_modes@.len() as int),
                distinct_modes(d_modes@),
                modes_of(d_modes@) == modes_of(d_full).remove_keys(
                    mode_set(o_full.skip(o_modes@.len() as int)),
                ),
                distinct_modes(merged@),
                forall|i: int|
                    0 <= i < merged@.len() ==> mode_set(
                        o_full.skip(o_modes@.len() as int),
                    ).contains(#[trigger] merged@[i].mode),
                modes_of(merged@) == target.restrict(mode_set(o_full.skip(o_modes@.len() as int))),
                target == resolve_spec(d0, o0).modes,
                d0.modes == modes_of(d_full),
                o0.modes == modes_of(o_full),
                resolve_spec(d0, o0).round_length == round_length,
                resolve_spec(d0, o0).winner_if_timeout == winner_if_timeout,
                resolve_spec(d0, o0).winner_if_extermination == winner_if_extermination,
            decreases o_modes@.len(),
        {
            let ghost n = o_modes@.len() as int;
            let ghost processed_before = mode_set(o_full.skip(n));
            let entry = o_modes.pop().unwrap();
            proof {
                assert(entry == o_full.take(n).last());
                assert(entry == o_full[n - 1]);
                assert(o_modes@ =~= o_full.take(n - 1));
                // The mode just popped was not processed before: the entries
                // after it all carry other modes.
                assert forall|m: ArenaMode| processed_before.contains(m) implies m
                    != entry.mode by {
                    let j = choose|j: int|
                        0 <= j < o_full.skip(n).len() && (#[trigger] o_full.skip(n)[j]).mode == m;
                    assert(o_full.skip(n)[j] == o_full[n + j]);
                }
                // Processing it extends the processed set by exactly its mode.
                assert(mode_set(o_full.skip(n - 1)) =~= processed_before.insert(entry.mode)) by {
                    assert forall|m: ArenaMode|
                        mode_set(o_full.skip(n - 1)).contains(m) implies processed_before.insert(
                        entry.mode,
                    ).contains(m) by {
                        let j = choose|j: int|
                            0 <= j < o_full.skip(n - 1).len() && (#[trigger] o_full.skip(
                                n - 1,
                            )[j]).mode == m;
                        if j == 0 {
                            assert(o_full.skip(n - 1)[0] == o_full[n - 1]);
                        } else {
                            assert(o_full.skip(n - 1)[j] == o_full[n - 1 + j]);
                            assert(o_full.skip(n)[j - 1] == o_full[n + j - 1]);
                        }
                    }
                    assert forall|m: ArenaMode|
                        processed_before.insert(entry.mode).contains(m) implies mode_set(
                        o_full.skip(n - 1),
                    ).contains(m) by {
                        if m == entry.mode {
                            assert(o_full.skip(n - 1)[0] == o_full[n - 1]);
                        } else {
                            let j = choose|j: int|
                                0 <= j < o_full.skip(n).len() && (#[trigger] o_full.skip(
                                    n,
                                )[j]).mode == m;
                            assert(o_full.skip(n - 1)[j + 1] == o_full[n + j]);
                            assert(o_full.skip(n)[j] == o_full[n + j]);
                        }
                    }
                }
                lemma_modes_of_index(o_full, n - 1);
            }
            let ghost processed_after = mode_set(o_full.skip(n - 1));
            match find_mode_index(&d_modes, entry.mode) {
                Some(j) => {
                    let ghost d_before = d_modes@;
                    let default_entry = d_modes.remove(j);
                    proof {
                        lemma_modes_of_index(d_before, j as int);
                        lemma_modes_of_remove(d_before, j as int);
                        assert(!processed_before.contains(entry.mode));
                        assert(modes_of(d_before)[entry.mode] == default_entry.desc@);
                        assert(d0.modes[entry.mode] == default_entry.desc@);
                        assert(modes_of(d_full).remove_keys(processed_before).remove(entry.mode)
                            =~= modes_of(d_full).remove_keys(processed_after));
                        assert(o0.modes[entry.mode] == entry.desc@);
                    }
                    let full_desc = inherit_mode_desc(
                        merge_mode_desc(entry.desc, default_entry.desc),
                        round_length,
                        winner_if_timeout,
                        winner_if_extermination,
                    );
                    let ghost merged_before = merged@;
                    merged.push(ArenaModeEntry { mode: entry.mode, desc: full_desc });
                    proof {
                        assert(target.dom().contains(entry.mode));
                        assert(full_desc@ == target[entry.mode]);
                        lemma_modes_of_push(
                            merged_before,
                            ArenaModeEntry { mode: entry.mode, desc: full_desc },
                        );
                        assert(forall|i: int|
                            0 <= i < merged_before.len() ==> merged_before[i].mode != entry.mode);
                        assert forall|p: int, q: int|
                            0 <= p < q < merged@.len() implies merged@[p].mode
                            != merged@[q].mode by {
                            assert(merged@ == merged_before.push(
                                ArenaModeEntry { mode: entry.mode, desc: full_desc },
                            ));
                            if q < merged_before.len() {
                                assert(merged@[p] == merged_before[p]);
                                assert(merged@[q] == merged_before[q]);
                            } else {
                                assert(merged@[p] == merged_before[p]);
                                assert(merged@[q].mode == entry.mode);
                            }
                        }
                        assert(target.restrict(processed_before).insert(
                            entry.mode,
                            target[entry.mode],
                        ) =~= target.restrict(processed_after));
                    }
                },
                None => {
                    proof {
                        lemma_modes_of_dom(d_modes@, entry.mode);
                        assert(!modes_of(d_modes@).dom().contains(entry.mode));
                        assert(!processed_before.contains(entry.mode));
                        assert(!modes_of(d_full).dom().contains(entry.mode));
                        assert(!target.dom().contains(entry.mode));
                        assert(modes_of(d_modes@) =~= modes_of(d_full).remove_keys(
                            processed_after,
                        ));
                        assert(target.restrict(processed_after) =~= target.restrict(
                            processed_before,
                        ));
                    }
                },
            }
        }
        proof {
            assert(o_full.skip(0) =~= o_full);
            assert forall|m: ArenaMode| target.dom().contains(m) implies mode_set(
                o_full,
            ).contains(m) by {
                lemma_modes_of_dom(o_full, m);
            }
            assert(target.restrict(mode_set(o_full)) =~= target);
        }
        let r = ArenaDefinition {
            bounding_box,
            gameplay_types: merged,
            vehicle_camouflage_kind,
            round_length,
            winner_if_timeout,
            winner_if_extermination,
        };
        proof {
            assert(r@.modes == resolve_spec(d0, o0).modes);
        }
        r
    }
}

// ---------------------------------------------------------------------------
// Laws of the resolution engine.
// ---------------------------------------------------------------------------

/// A resolved definition configures exactly the modes both documents define:
/// its mode keys are the intersection of the two documents' mode keys.
pub proof fn lemma_resolved_modes_intersection(
    default_doc: ArenaDefinitionView,
    override_doc: ArenaDefinitionView,
)
    ensures
        resolve_spec(default_doc, override_doc).modes.dom() == default_doc.modes.dom().intersect(
            override_doc.modes.dom(),
        ),
{
    assert(resolve_spec(default_doc, override_doc).modes.dom() =~= default_doc.modes.dom()
        .intersect(override_doc.modes.dom()));
}

/// Documents sharing no mode key resolve to a definition with no modes at
/// all.
pub proof fn lemma_disjoint_modes_resolve_empty(
    default_doc: ArenaDefinitionView,
    override_doc: ArenaDefinitionView,
)
    requires
        default_doc.modes.dom().disjoint(override_doc.modes.dom()),
    ensures
        resolve_spec(default_doc, override_doc).modes.dom() == Set::<ArenaMode>::empty(),
{
    assert(resolve_spec(default_doc, override_doc).modes.dom() =~= Set::<ArenaMode>::empty());
}

/// Resolution is deterministic: resolving the same pair of documents again
/// yields a structurally equal definition.
pub proof fn lemma_resolve_deterministic(
    default_one: ArenaDefinitionView,
    override_one: ArenaDefinitionView,
    default_two: ArenaDefinitionView,
    override_two: ArenaDefinitionView,
)
    requires
        default_one == default_two,
        override_one == override_two,
    ensures
        resolve_spec(default_one, override_one) == resolve_spec(default_two, override_two),
{
}

/// Round-length inheritance: a retained mode that sets no round length of
/// its own (on either side) takes the resolved map-level value, while a mode
/// that does set one keeps it untouched.
pub proof fn lemma_mode_round_length_inheritance(
    default_doc: ArenaDefinitionView,
    override_doc: ArenaDefinitionView,
    mode: ArenaMode,
)
    requires
        default_doc.modes.dom().contains(mode),
        override_doc.modes.dom().contains(mode),
    ensures
        ({
            let own = merge_optional(
                override_doc.modes[mode].round_length,
                default_doc.modes[mode].round_length,
            );
            let resolved = resolve_spec(default_doc, override_doc);
            resolved.modes[mode].round_length == (if own is Some {
                own
            } else {
                resolved.round_length
            })
        }),
{
}

/// Override precedence at the document root: an override field that is set
/// wins regardless of the default, and an absent one falls back to the
/// default's value.
pub proof fn lemma_root_override_precedence(
    default_doc: ArenaDefinitionView,
    override_doc: ArenaDefinitionView,
)
    ensures
        override_doc.winner_if_timeout is Some ==> resolve_spec(
            default_doc,
            override_doc,
        ).winner_if_timeout == override_doc.winner_if_timeout,
        override_doc.winner_if_timeout is None ==> resolve_spec(
            default_doc,
            override_doc,
        ).winner_if_timeout == default_doc.winner_if_timeout,
{
}

} // verus!
