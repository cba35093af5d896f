//! Mode classification: the team-game mode of a match (from the two team
//! sizes and the ranked flag) and the movement-restriction mode (from the
//! three restriction flags).

use vstd::prelude::*;

verus! {

/// The eight combinations of the three movement-restriction flags.
#[derive(Clone, Copy, Debug, PartialEq, Eq, Structural)]
pub enum GeoMode {
    Moving,
    NoMove,
    NMPZ,
    NoPanningZooming,
    NoPanningMoving,
    NoMovingZooming,
    NoPanning,
    NoZooming,
}

/// The team-game mode of a match: duels and team duels by the ranked flag,
/// and a catch-all casual mode for any other team size combination.
#[derive(Clone, Copy, Debug, PartialEq, Eq, Structural)]
pub enum TeamGameMode {
    Duels,
    DuelsRanked,
    TeamDuels,
    TeamDuelsRanked,
    TeamFun,
}

/// The movement-restriction triple of a match.
#[derive(Clone, Copy, Debug, PartialEq, Eq, Structural)]
pub struct MovementOption {
    pub forbid_moving: bool,
    pub forbid_zooming: bool,
    pub forbid_rotating: bool,
}

/// The team-game mode determined by the two team sizes and the ranked flag:
/// 1v1 is a duel, 2v2 a team duel (each ranked or not by the flag), and any
/// other combination the casual team mode.
pub open spec fn spec_game_mode(team1_size: int, team2_size: int, is_rated: bool) -> TeamGameMode {
    if team1_size == 1 && team2_size == 1 {
        if is_rated {
            TeamGameMode::DuelsRanked
        } else {
            TeamGameMode::Duels
        }
    } else if team1_size == 2 && team2_size == 2 {
        if is_rated {
            TeamGameMode::TeamDuelsRanked
        } else {
            TeamGameMode::TeamDuels
        }
    } else {
        TeamGameMode::TeamFun
    }
}

/// The movement mode determined by the restriction triple: each of the eight
/// flag combinations maps to its own variant.
pub open spec fn spec_geo_mode(movement_options: MovementOption) -> GeoMode {
    if movement_options.forbid_moving {
        if movement_options.forbid_zooming {
            if movement_options.forbid_rotating {
                GeoMode::NMPZ
            } else {
                GeoMode::NoMovingZooming
            }
        } else {
            if movement_options.forbid_rotating {
                GeoMode::NoPanningMoving
            } else {
                GeoMode::NoMove
            }
        }
    } else {
        if movement_options.forbid_zooming {
            if movement_options.forbid_rotating {
                GeoMode::NoPanningZooming
            } else {
                GeoMode::NoZooming
            }
        } else {
            if movement_options.forbid_rotating {
                GeoMode::NoPanning
            } else {
                GeoMode::Moving
            }
        }
    }
}

/// Classifies a match by its two team sizes and its ranked flag.
pub fn get_game_mode(team1_size: usize, team2_size: usize, is_rated: bool) -> (r: TeamGameMode)
    ensures
        r == spec_game_mode(team1_size as int, team2_size as int, is_rated),
{
    if team1_size == 1 && team2_size == 1 {
        if is_rated {
            TeamGameMode::DuelsRanked
        } else {
            TeamGameMode::Duels
        }
    } else if team1_size == 2 && team2_size == 2 {
        if is_rated {
            TeamGameMode::TeamDuelsRanked
        } else {
            TeamGameMode::TeamDuels
        }
    } else {
        TeamGameMode::TeamFun
    }
}

/// Derives the movement mode from the movement-restriction triple. This is a
/// pure total function: every triple maps to exactly one variant.
pub fn get_geo_mode(movement_options: &MovementOption) -> (r: GeoMode)
    ensures
        r == spec_geo_mode(*movement_options),
{
    match *movement_options {
        MovementOption { forbid_moving: false, forbid_zooming: false, forbid_rotating: false } => GeoMode::Moving,
        MovementOption { forbid_moving: false, forbid_zooming: false, forbid_rotating: true } => GeoMode::NoPanning,
        MovementOption { forbid_moving: false, forbid_zooming: true, forbid_rotating: false } => GeoMode::NoZooming,
        MovementOption { forbid_moving: false, forbid_zooming: true, forbid_rotating: true } => GeoMode::NoPanningZooming,
        MovementOption { forbid_moving: true, forbid_zooming: false, forbid_rotating: false } => GeoMode::NoMove,
        MovementOption { forbid_moving: true, forbid_zooming: false, forbid_rotating: true } => GeoMode::NoPanningMoving,
        MovementOption { forbid_moving: true, forbid_zooming: true, forbid_rotating: false } => GeoMode::NoMovingZooming,
        MovementOption { forbid_moving: true, forbid_zooming: true, forbid_rotating: true } => GeoMode::NMPZ,
    }
}

impl GeoMode {
    /// The stable name under which this mode is stored.
    pub fn name(&self) -> (r: &'static str)
        ensures
            r@ == self.spec_name(),
    {
        match *self {
            GeoMode::Moving => "Moving",
            GeoMode::NoMove => "NoMove",
            GeoMode::NMPZ => "NMPZ",
            GeoMode::NoPanningZooming => "NoPanningZooming",
            GeoMode::NoPanningMoving => "NoPanningMoving",
            GeoMode::NoMovingZooming => "NoMovingZooming",
            GeoMode::NoPanning => "NoPanning",
            GeoMode::NoZooming => "NoZooming",
        }
    }

    /// The stable name of each variant.
    pub open spec fn spec_name(self) -> Seq<char> {
        match self {
            GeoMode::Moving => "Moving"@,
            GeoMode::NoMove => "NoMove"@,
            GeoMode::NMPZ => "NMPZ"@,
            GeoMode::NoPanningZooming => "NoPanningZooming"@,
            GeoMode::NoPanningMoving => "NoPanningMoving"@,
            GeoMode::NoMovingZooming => "NoMovingZooming"@,
            GeoMode::NoPanning => "NoPanning"@,
            GeoMode::NoZooming => "NoZooming"@,
        }
    }
}

impl TeamGameMode {
    /// The stable name under which this mode is stored.
    pub fn name(&self) -> (r: &'static str)
        ensures
            r@ == self.spec_name(),
    {
        match *self {
            TeamGameMode::Duels => "Duels",
            TeamGameMode::DuelsRanked => "DuelsRanked",
            TeamGameMode::TeamDuels => "TeamDuels",
            TeamGameMode::TeamDuelsRanked => "TeamDuelsRanked",
            TeamGameMode::TeamFun => "TeamFun",
        }
    }

    /// The stable name of each variant.
    pub open spec fn spec_name(self) -> Seq<char> {
        match self {
            TeamGameMode::Duels => "Duels"@,
            TeamGameMode::DuelsRanked => "DuelsRanked"@,
            TeamGameMode::TeamDuels => "TeamDuels"@,
            TeamGameMode::TeamDuelsRanked => "TeamDuelsRanked"@,
            TeamGameMode::TeamFun => "TeamFun"@,
        }
    }
}

} // verus!
