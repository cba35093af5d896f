//! The canonical rows the pipeline writes, and the write-sets that group
//! them: one match's rows, and a batch's rows. Each row type names its
//! primary key through the `Keyed` trait, which drives deduplication and
//! the per-table conflict policies.

use vstd::prelude::*;
use crate::modes::{GeoMode, TeamGameMode};

verus! {

/// A row type with a string primary key.
pub trait Keyed {
    /// The primary key as a character sequence.
    spec fn skey(&self) -> Seq<char>;

    /// The primary key.
    fn key(&self) -> (k: &str)
        ensures
            k@ == self.skey(),
    ;
}

/// One finished duels match.
#[derive(Debug, Clone, PartialEq, Eq)]
pub struct DuelsGameRow {
    pub id: String,
    pub team_id1: String,
    pub team_id2: String,
    pub health_team1: i32,
    pub health_team2: i32,
    pub team_game_mode: TeamGameMode,
    pub geo_mode: GeoMode,
    pub start_time: String,
    pub map_id: String,
    pub rating_before_team1: Option<i32>,
    pub rating_before_team2: Option<i32>,
}

/// One round of a duels match.
#[derive(Debug, Clone, PartialEq, Eq)]
pub struct DuelsRoundRow {
    pub id: String,
    pub game_id: String,
    pub location_id: String,
    pub round_country_code: String,
    /// Zero-based, contiguous within the match.
    pub round_number: i32,
    /// Damage multiplier in millionths.
    pub damage_multiplier_micro: i64,
}

/// One team's answer for one round.
#[derive(Debug, Clone, PartialEq, Eq)]
pub struct GuessRow {
    pub id: String,
    pub game_id: String,
    pub round_id: String,
    pub team_id: String,
    pub lat_micro: i64,
    pub lng_micro: i64,
    /// Never negative.
    pub score: i32,
    /// Seconds between the round's start and the guess.
    pub time: Option<i32>,
    /// The moment the guess was made, in milliseconds since the epoch.
    pub date_millis: i64,
    /// Distance to the target in whole meters.
    pub distance_m: u64,
    /// Resolved country of the guess coordinate; absent outside all regions.
    pub country_code: Option<String>,
    /// Resolved subdivision of the guess coordinate.
    pub subdivision_code: Option<String>,
    /// Country of the round's target.
    pub round_country_code: String,
    pub is_teams_best: bool,
}

/// A target location, shared across matches.
#[derive(Debug, Clone, PartialEq, Eq)]
pub struct LocationRow {
    pub id: String,
    pub lat_micro: i64,
    pub lng_micro: i64,
    pub heading_micro: i64,
    pub pitch_micro: i64,
    pub zoom_micro: i64,
    pub country_code: String,
    pub subdivision_code: Option<String>,
}

/// A participant's profile snapshot; refreshed on every appearance.
#[derive(Debug, Clone, PartialEq, Eq)]
pub struct PlayerRow {
    pub id: String,
    pub name: String,
    pub country_code: String,
    pub rating: Option<i32>,
    pub moving_rating: Option<i32>,
    pub no_move_rating: Option<i32>,
    pub nmpz_rating: Option<i32>,
    pub avatar_pin: String,
    pub level: i32,
    pub is_pro_user: bool,
    pub is_creator: bool,
}

/// A rated two-player team.
#[derive(Debug, Clone, PartialEq, Eq)]
pub struct CompTeamRow {
    pub team_id: String,
    pub player_id1: String,
    pub player_id2: String,
    pub name: String,
    pub rating: Option<i32>,
}

/// An unrated team of arbitrary size.
#[derive(Debug, Clone, PartialEq, Eq)]
pub struct FunTeamRow {
    pub team_id: String,
    pub player_ids: Vec<String>,
}

/// A game board definition.
#[derive(Debug, Clone, PartialEq, Eq)]
pub struct MapRow {
    pub id: String,
    pub name: String,
    pub lat1_micro: i64,
    pub lng1_micro: i64,
    pub lat2_micro: i64,
    pub lng2_micro: i64,
    /// Maximum guess-error distance in meters.
    pub max_distance: i32,
}

/// One finished solo game.
#[derive(Debug, Clone, PartialEq, Eq)]
pub struct SoloGameRow {
    pub id: String,
    pub player_id: String,
    pub geo_mode: GeoMode,
    pub start_time: String,
    pub map_id: String,
}

/// One round of a solo game.
#[derive(Debug, Clone, PartialEq, Eq)]
pub struct SoloRoundRow {
    pub id: String,
    pub game_id: String,
    pub location_id: String,
    pub round_number: i32,
}

impl Keyed for DuelsGameRow {
    open spec fn skey(&self) -> Seq<char> {
        self.id@
    }

    fn key(&self) -> (k: &str) {
        self.id.as_str()
    }
}

impl Keyed for DuelsRoundRow {
    open spec fn skey(&self) -> Seq<char> {
        self.id@
    }

    fn key(&self) -> (k: &str) {
        self.id.as_str()
    }
}

impl Keyed for GuessRow {
    open spec fn skey(&self) -> Seq<char> {
        self.id@
    }

    fn key(&self) -> (k: &str) {
        self.id.as_str()
    }
}

impl Keyed for LocationRow {
    open spec fn skey(&self) -> Seq<char> {
        self.id@
    }

    fn key(&self) -> (k: &str) {
        self.id.as_str()
    }
}

impl Keyed for PlayerRow {
    open spec fn skey(&self) -> Seq<char> {
        self.id@
    }

    fn key(&self) -> (k: &str) {
        self.id.as_str()
    }
}

impl Keyed for CompTeamRow {
    open spec fn skey(&self) -> Seq<char> {
        self.team_id@
    }

    fn key(&self) -> (k: &str) {
        self.team_id.as_str()
    }
}

impl Keyed for FunTeamRow {
    open spec fn skey(&self) -> Seq<char> {
        self.team_id@
    }

    fn key(&self) -> (k: &str) {
        self.team_id.as_str()
    }
}

impl Keyed for MapRow {
    open spec fn skey(&self) -> Seq<char> {
        self.id@
    }

    fn key(&self) -> (k: &str) {
        self.id.as_str()
    }
}

impl Keyed for SoloGameRow {
    open spec fn skey(&self) -> Seq<char> {
        self.id@
    }

    fn key(&self) -> (k: &str) {
        self.id.as_str()
    }
}

impl Keyed for SoloRoundRow {
    open spec fn skey(&self) -> Seq<char> {
        self.id@
    }

    fn key(&self) -> (k: &str) {
        self.id.as_str()
    }
}

/// The full write-set of one duels match.
#[derive(Debug, Clone, PartialEq, Eq)]
pub struct GameData {
    pub duels_game: DuelsGameRow,
    pub rounds: Vec<DuelsRoundRow>,
    pub guesses: Vec<GuessRow>,
    pub locations: Vec<LocationRow>,
    pub players: Vec<PlayerRow>,
    pub comp_teams: Vec<CompTeamRow>,
    pub fun_teams: Vec<FunTeamRow>,
    pub map: MapRow,
}

/// The combined write-set of a batch of duels matches.
#[derive(Debug, Clone, PartialEq, Eq)]
pub struct GamesData {
    pub duels_games: Vec<DuelsGameRow>,
    pub rounds: Vec<DuelsRoundRow>,
    pub guesses: Vec<GuessRow>,
    pub locations: Vec<LocationRow>,
    pub players: Vec<PlayerRow>,
    pub comp_teams: Vec<CompTeamRow>,
    pub fun_teams: Vec<FunTeamRow>,
    pub maps: Vec<MapRow>,
}

/// The full write-set of one solo game.
#[derive(Debug, Clone, PartialEq, Eq)]
pub struct SoloGameData {
    pub solo_game: SoloGameRow,
    pub rounds: Vec<SoloRoundRow>,
    pub guesses: Vec<GuessRow>,
    pub locations: Vec<LocationRow>,
    pub player: Option<PlayerRow>,
    pub map: MapRow,
}

} // verus!
