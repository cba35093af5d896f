//! The input model of the pipeline: what the game service reports about a
//! finished match, as plain values. Coordinates, camera parameters and
//! multipliers arrive as fixed-point integers in millionths of their
//! original unit, distances as whole meters, and timestamps as the
//! service's own text, parsed later during assembly. Alongside each
//! coordinate stand the candidate region ids that the boundary indexes
//! returned for it, and each match carries the great-circle distance
//! between its map's bounding-box corners, so that the assembly itself is a
//! pure transformation.

use vstd::prelude::*;
use crate::modes::MovementOption;

verus! {

/// A ranked team as the team lookup reports it.
#[derive(Debug, Clone, PartialEq, Eq)]
pub struct RankedTeam {
    pub team_id: String,
    pub division_number: i32,
    pub division_name: String,
    pub rating: Option<i32>,
    pub tier: String,
    pub team_name: String,
}

/// Per-submode ratings of a player.
#[derive(Debug, Clone, PartialEq, Eq)]
pub struct GameModeRatings {
    pub standard_duels: Option<i32>,
    pub no_move_duels: Option<i32>,
    pub nmpz_duels: Option<i32>,
}

/// A player's ranked progress as the rating lookup reports it.
#[derive(Debug, Clone, PartialEq, Eq)]
pub struct PlayerRankedSystemProgress {
    pub division_number: i32,
    pub division_name: String,
    pub rating: Option<i32>,
    pub tier: String,
    pub game_mode_ratings: Option<GameModeRatings>,
    pub win_streak: i32,
}

/// A player's avatar reference.
#[derive(Debug, Clone, PartialEq, Eq)]
pub struct Avatar {
    pub full_body_path: String,
}

/// A player's level and division.
#[derive(Debug, Clone, PartialEq, Eq)]
pub struct Br {
    pub level: i32,
    pub division: i32,
}

/// A player's map-pin avatar.
#[derive(Debug, Clone, PartialEq, Eq)]
pub struct UserPin {
    pub url: String,
    pub anchor: String,
    pub is_default: bool,
}

/// A pin image reference in a solo-game payload.
#[derive(Debug, Clone, PartialEq, Eq)]
pub struct PlayerPin {
    pub url: String,
    pub anchor: String,
    pub is_default: bool,
}

/// A distance rendered by the service in one unit.
#[derive(Debug, Clone, PartialEq, Eq)]
pub struct Distance {
    pub amount: String,
    pub unit: String,
}

/// A distance rendered by the service in meters and miles.
#[derive(Debug, Clone, PartialEq, Eq)]
pub struct TotalDistance {
    pub meters: Distance,
    pub miles: Distance,
}

/// The context a game was played in.
#[derive(Debug, Clone, PartialEq, Eq)]
pub struct GameContext {
    pub type_entry: String,
    pub id: String,
}

/// A player's profile as the user lookup reports it.
#[derive(Debug, Clone, PartialEq, Eq)]
pub struct User {
    pub nick: String,
    pub created: String,
    pub is_pro_user: bool,
    pub type_entry: String,
    pub consumed_trial: bool,
    pub is_verified: bool,
    pub pin: UserPin,
    pub full_body_pin: String,
    pub url: String,
    pub id: String,
    pub country_code: String,
    pub br: Br,
    pub is_banned: bool,
    pub chat_ban: bool,
    pub avatar: Avatar,
    pub is_bot_user: bool,
    pub suspended_until: Option<String>,
    pub is_creator: bool,
}

/// Points awarded with a rating change.
#[derive(Debug, Clone, PartialEq, Eq)]
pub struct Points {
    pub win_within_weekly_cap: Option<i32>,
    pub first_win_of_the_day: Option<i32>,
    pub win_rounds: Option<i32>,
}

/// A player's ranked-solo progress change within one match.
#[derive(Debug, Clone, PartialEq, Eq)]
pub struct RankedSystemProgress {
    pub points: Points,
    pub total_weekly_points: i32,
    pub weekly_cap: i32,
    pub games_played_within_weekly_cap: i32,
    pub position_before: Option<i32>,
    pub position_after: Option<i32>,
    pub rating_before: Option<i32>,
    pub rating_after: Option<i32>,
    pub win_streak: i32,
    pub bucket_sorted_by: String,
    pub game_mode: String,
    pub game_mode_rating_before: Option<i32>,
    pub game_mode_rating_after: Option<i32>,
    pub game_mode_games_played: i32,
    pub game_mode_games_required: i32,
    pub placement_games_played: i32,
    pub placement_games_required: i32,
}

/// A team's ranked-team progress change within one match.
#[derive(Debug, Clone, PartialEq, Eq)]
pub struct RankedTeamDuelsProgress {
    pub rating_before: Option<i32>,
    pub rating_after: Option<i32>,
    pub points: Points,
    pub total_weekly_points: i32,
    pub weekly_cap: i32,
    pub games_played_within_weekly_cap: i32,
    pub position_before: Option<i32>,
    pub position_after: Option<i32>,
    pub win_streak: i32,
    pub bucket_sorted_by: String,
}

/// A player's progress change within one match.
#[derive(Debug, Clone, PartialEq, Eq)]
pub struct ProgressChange {
    pub medal: i32,
    pub ranked_system_progress: Option<RankedSystemProgress>,
    pub ranked_team_duels_progress: Option<RankedTeamDuelsProgress>,
}

/// One guess of one player in a duels match, with the boundary-query
/// candidates for its coordinate.
#[derive(Debug, Clone, PartialEq, Eq)]
pub struct DuelsGuessInput {
    /// One-based number of the round the guess answers.
    pub round_number: i32,
    pub lat_micro: i64,
    pub lng_micro: i64,
    /// Distance to the target in whole meters.
    pub distance_m: u64,
    /// Timestamp text of the moment the guess was made.
    pub created: String,
    pub is_teams_best_guess_on_round: bool,
    /// The score the service reported, absent for some casual payloads.
    pub score: Option<i32>,
    /// Country ids containing the guess coordinate, in boundary-index order.
    pub country_candidates: Vec<String>,
    /// Subdivision ids containing the guess coordinate.
    pub subdivision_candidates: Vec<String>,
}

/// One player of a duels match.
#[derive(Debug, Clone, PartialEq, Eq)]
pub struct DuelsPlayerInput {
    pub player_id: String,
    pub guesses: Vec<DuelsGuessInput>,
    pub progress_change: Option<ProgressChange>,
}

/// One side of a duels match.
#[derive(Debug, Clone, PartialEq, Eq)]
pub struct TeamInput {
    pub health: i32,
    pub players: Vec<DuelsPlayerInput>,
}

/// The target location of one duels round, with the subdivision candidates
/// for its coordinate.
#[derive(Debug, Clone, PartialEq, Eq)]
pub struct PanoramaInput {
    pub pano_id: String,
    pub lat_micro: i64,
    pub lng_micro: i64,
    pub country_code: String,
    pub heading_micro: i64,
    pub pitch_micro: i64,
    pub zoom_micro: i64,
    /// Subdivision ids containing the target coordinate.
    pub subdivision_candidates: Vec<String>,
}

/// One round of a duels match.
#[derive(Debug, Clone, PartialEq, Eq)]
pub struct RoundInput {
    /// One-based number of the round.
    pub round_number: i32,
    pub panorama: PanoramaInput,
    /// Damage multiplier in millionths.
    pub damage_multiplier_micro: i64,
    /// Timestamp text of the round's start, absent for rounds never begun.
    pub start_time: Option<String>,
}

/// A finished duels match as fetched from the game service, together with
/// the boundary-query results and the bounding-box diagonal that the
/// assembly needs.
#[derive(Debug, Clone, PartialEq, Eq)]
pub struct DuelsGameInput {
    pub game_id: String,
    /// The service's lifecycle state; only `Finished` is ingested.
    pub status: String,
    /// Rounds beyond this number were never played.
    pub current_round_number: i32,
    pub is_rated: bool,
    pub movement_options: MovementOption,
    pub map_slug: String,
    pub map_name: String,
    /// The map's own maximum guess-error distance in meters.
    pub map_max_error_distance: i32,
    pub bounds_min_lat_micro: i64,
    pub bounds_min_lng_micro: i64,
    pub bounds_max_lat_micro: i64,
    pub bounds_max_lng_micro: i64,
    /// Great-circle distance between the bounding-box corners, in meters.
    pub max_map_distance_m: u64,
    pub teams: Vec<TeamInput>,
    pub rounds: Vec<RoundInput>,
}

/// One round of a solo game, with the subdivision candidates for its
/// target coordinate.
#[derive(Debug, Clone, PartialEq, Eq)]
pub struct SoloRoundInput {
    pub lat_micro: i64,
    pub lng_micro: i64,
    pub pano_id: String,
    pub heading_micro: i64,
    pub pitch_micro: i64,
    pub zoom_micro: i64,
    pub streak_location_code: String,
    pub start_time: Option<String>,
    /// Subdivision ids containing the target coordinate.
    pub subdivision_candidates: Vec<String>,
}

/// One guess of the solo player, with the country candidates for its
/// coordinate.
#[derive(Debug, Clone, PartialEq, Eq)]
pub struct SoloGuessInput {
    pub lat_micro: i64,
    pub lng_micro: i64,
    pub round_score_in_points: i32,
    /// Distance to the target in whole meters.
    pub distance_m: u64,
    /// Seconds the player took to answer.
    pub time: i32,
    /// Country ids containing the guess coordinate, in boundary-index order.
    pub country_candidates: Vec<String>,
}

/// A finished solo game as fetched from the game service.
#[derive(Debug, Clone, PartialEq, Eq)]
pub struct SoloGameInput {
    pub token: String,
    /// The service's lifecycle state; only `finished` is ingested.
    pub state: String,
    pub forbid_moving: bool,
    pub forbid_zooming: bool,
    pub forbid_rotating: bool,
    pub map: String,
    pub map_name: String,
    pub bounds_min_lat_micro: i64,
    pub bounds_min_lng_micro: i64,
    pub bounds_max_lat_micro: i64,
    pub bounds_max_lng_micro: i64,
    /// Great-circle distance between the bounding-box corners, in meters.
    pub diagonal_m: u64,
    pub player_id: String,
    pub rounds: Vec<SoloRoundInput>,
    pub guesses: Vec<SoloGuessInput>,
}

} // verus!
