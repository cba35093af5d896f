use geostats::modes::{get_game_mode, get_geo_mode, GeoMode, MovementOption, TeamGameMode};
use geostats::team_id::get_team_id;

#[test]
fn one_versus_one_is_a_duel() {
    assert_eq!(get_game_mode(1, 1, false), TeamGameMode::Duels);
    assert_eq!(get_game_mode(1, 1, true), TeamGameMode::DuelsRanked);
}

#[test]
fn two_versus_two_is_a_team_duel() {
    assert_eq!(get_game_mode(2, 2, false), TeamGameMode::TeamDuels);
    assert_eq!(get_game_mode(2, 2, true), TeamGameMode::TeamDuelsRanked);
}

#[test]
fn other_sizes_are_the_casual_mode() {
    assert_eq!(get_game_mode(1, 2, false), TeamGameMode::TeamFun);
    assert_eq!(get_game_mode(3, 3, true), TeamGameMode::TeamFun);
    assert_eq!(get_game_mode(0, 0, false), TeamGameMode::TeamFun);
    assert_eq!(get_game_mode(5, 2, true), TeamGameMode::TeamFun);
}

fn movement(m: bool, z: bool, r: bool) -> MovementOption {
    MovementOption { forbid_moving: m, forbid_zooming: z, forbid_rotating: r }
}

#[test]
fn all_eight_movement_modes() {
    assert_eq!(get_geo_mode(&movement(false, false, false)), GeoMode::Moving);
    assert_eq!(get_geo_mode(&movement(false, false, true)), GeoMode::NoPanning);
    assert_eq!(get_geo_mode(&movement(false, true, false)), GeoMode::NoZooming);
    assert_eq!(get_geo_mode(&movement(false, true, true)), GeoMode::NoPanningZooming);
    assert_eq!(get_geo_mode(&movement(true, false, false)), GeoMode::NoMove);
    assert_eq!(get_geo_mode(&movement(true, false, true)), GeoMode::NoPanningMoving);
    assert_eq!(get_geo_mode(&movement(true, true, false)), GeoMode::NoMovingZooming);
    assert_eq!(get_geo_mode(&movement(true, true, true)), GeoMode::NMPZ);
}

#[test]
fn mode_names_are_stable() {
    assert_eq!(TeamGameMode::TeamDuelsRanked.name(), "TeamDuelsRanked");
    assert_eq!(TeamGameMode::TeamFun.name(), "TeamFun");
    assert_eq!(GeoMode::NMPZ.name(), "NMPZ");
    assert_eq!(GeoMode::Moving.name(), "Moving");
}

#[test]
fn team_id_sorts_and_joins_members() {
    assert_eq!(get_team_id(vec!["bob", "alice"]), "alice-bob");
    assert_eq!(get_team_id(vec!["alice", "bob"]), "alice-bob");
}

#[test]
fn team_id_is_order_invariant_for_pairs() {
    let ab = get_team_id(vec!["5be0", "11aa"]);
    let ba = get_team_id(vec!["11aa", "5be0"]);
    assert_eq!(ab, ba);
    assert_eq!(ab, "11aa-5be0");
}

#[test]
fn team_id_is_order_invariant_for_larger_teams() {
    let a = get_team_id(vec!["c", "a", "b", "d"]);
    let b = get_team_id(vec!["d", "b", "a", "c"]);
    assert_eq!(a, b);
    assert_eq!(a, "a-b-c-d");
}

#[test]
fn team_id_of_one_member_is_that_member() {
    assert_eq!(get_team_id(vec!["solo"]), "solo");
}

#[test]
fn team_id_of_no_members_is_empty() {
    assert_eq!(get_team_id(vec![]), "");
}
