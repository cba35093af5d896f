use geostats::dedup::remove_duplicates;
use geostats::error::IngestError;
use geostats::modes::{GeoMode, TeamGameMode};
use geostats::rows::{
    CompTeamRow, DuelsGameRow, DuelsRoundRow, FunTeamRow, GamesData, GuessRow, LocationRow, MapRow,
    PlayerRow,
};
use geostats::store::Store;

fn location(id: &str, subdivision: Option<&str>) -> LocationRow {
    LocationRow {
        id: String::from(id),
        lat_micro: 48_858_000,
        lng_micro: 2_294_000,
        heading_micro: 0,
        pitch_micro: 0,
        zoom_micro: 0,
        country_code: String::from("FR"),
        subdivision_code: subdivision.map(String::from),
    }
}

fn player(id: &str, name: &str, rating: Option<i32>) -> PlayerRow {
    PlayerRow {
        id: String::from(id),
        name: String::from(name),
        country_code: String::from("DE"),
        rating,
        moving_rating: None,
        no_move_rating: None,
        nmpz_rating: None,
        avatar_pin: String::from("pin.png"),
        level: 10,
        is_pro_user: false,
        is_creator: false,
    }
}

fn game(id: &str) -> DuelsGameRow {
    DuelsGameRow {
        id: String::from(id),
        team_id1: String::from("a"),
        team_id2: String::from("b"),
        health_team1: 0,
        health_team2: 1500,
        team_game_mode: TeamGameMode::Duels,
        geo_mode: GeoMode::Moving,
        start_time: String::from("2024-01-01T12:00:00Z"),
        map_id: String::from("world"),
        rating_before_team1: None,
        rating_before_team2: None,
    }
}

fn round(id: &str, game_id: &str, n: i32) -> DuelsRoundRow {
    DuelsRoundRow {
        id: String::from(id),
        game_id: String::from(game_id),
        location_id: String::from("loc-1"),
        round_country_code: String::from("FR"),
        round_number: n,
        damage_multiplier_micro: 1_000_000,
    }
}

fn guess(id: &str, game_id: &str) -> GuessRow {
    GuessRow {
        id: String::from(id),
        game_id: String::from(game_id),
        round_id: String::from("r-1"),
        team_id: String::from("a"),
        lat_micro: 0,
        lng_micro: 0,
        score: 4500,
        time: Some(12),
        date_millis: 1_704_110_400_000,
        distance_m: 100,
        country_code: Some(String::from("FR")),
        subdivision_code: None,
        round_country_code: String::from("FR"),
        is_teams_best: true,
    }
}

fn map(id: &str, name: &str, max_distance: i32) -> MapRow {
    MapRow {
        id: String::from(id),
        name: String::from(name),
        lat1_micro: -60_000_000,
        lng1_micro: -170_000_000,
        lat2_micro: 70_000_000,
        lng2_micro: 170_000_000,
        max_distance,
    }
}

fn batch_of(games: Vec<DuelsGameRow>) -> GamesData {
    GamesData {
        duels_games: games,
        rounds: vec![],
        guesses: vec![],
        locations: vec![],
        players: vec![],
        comp_teams: vec![],
        fun_teams: vec![],
        maps: vec![],
    }
}

#[test]
fn duplicated_location_keeps_the_first_row() {
    let rows = vec![
        location("pano-1", Some("FR-IDF")),
        location("pano-1", None),
        location("pano-1", Some("FR-NOR")),
    ];
    let unique = remove_duplicates(rows);
    assert_eq!(unique.len(), 1);
    assert_eq!(unique[0].subdivision_code, Some(String::from("FR-IDF")));
}

#[test]
fn distinct_keys_all_survive_in_order() {
    let rows = vec![
        location("pano-1", None),
        location("pano-2", None),
        location("pano-1", Some("x")),
        location("pano-3", None),
    ];
    let unique = remove_duplicates(rows);
    let ids: Vec<&str> = unique.iter().map(|r| r.id.as_str()).collect();
    assert_eq!(ids, vec!["pano-1", "pano-2", "pano-3"]);
}

#[test]
fn reingesting_a_match_reports_already_exists_and_changes_nothing() {
    let mut store = Store::new();
    let mut data = batch_of(vec![game("g-1")]);
    data.rounds.push(round("r-1", "g-1", 0));
    data.guesses.push(guess("gu-1", "g-1"));
    data.locations.push(location("pano-1", None));
    data.players.push(player("p-1", "Alice", Some(1200)));
    data.maps.push(map("world", "World", 20000000));
    assert!(store.apply_games(data.clone()).is_ok());
    let snapshot = store.clone();
    let outcome = store.apply_games(data);
    assert_eq!(outcome, Err(IngestError::AlreadyExists));
    assert!(store == snapshot);
}

#[test]
fn an_empty_batch_is_a_storage_failure() {
    let mut store = Store::new();
    let outcome = store.apply_games(batch_of(vec![]));
    assert!(matches!(outcome, Err(IngestError::StorageFailure(_))));
}

#[test]
fn players_are_refreshed_on_reappearance() {
    let mut store = Store::new();
    let mut first = batch_of(vec![game("g-1")]);
    first.players.push(player("p-1", "Old Name", Some(1000)));
    assert!(store.apply_games(first).is_ok());
    let mut second = batch_of(vec![game("g-2")]);
    second.players.push(player("p-1", "New Name", Some(1100)));
    assert!(store.apply_games(second).is_ok());
    assert_eq!(store.players.len(), 1);
    assert_eq!(store.players[0].name, "New Name");
    assert_eq!(store.players[0].rating, Some(1100));
}

#[test]
fn rated_teams_refresh_name_and_rating_only() {
    let mut store = Store::new();
    let mut first = batch_of(vec![game("g-1")]);
    first.comp_teams.push(CompTeamRow {
        team_id: String::from("a-b"),
        player_id1: String::from("a"),
        player_id2: String::from("b"),
        name: String::from("Old"),
        rating: Some(900),
    });
    assert!(store.apply_games(first).is_ok());
    let mut second = batch_of(vec![game("g-2")]);
    second.comp_teams.push(CompTeamRow {
        team_id: String::from("a-b"),
        player_id1: String::from("zzz"),
        player_id2: String::from("yyy"),
        name: String::from("New"),
        rating: Some(950),
    });
    assert!(store.apply_games(second).is_ok());
    assert_eq!(store.comp_teams.len(), 1);
    assert_eq!(store.comp_teams[0].name, "New");
    assert_eq!(store.comp_teams[0].rating, Some(950));
    assert_eq!(store.comp_teams[0].player_id1, "a");
    assert_eq!(store.comp_teams[0].player_id2, "b");
}

#[test]
fn maps_keep_their_first_bounds() {
    let mut store = Store::new();
    let mut first = batch_of(vec![game("g-1")]);
    first.maps.push(map("world", "World", 100));
    assert!(store.apply_games(first).is_ok());
    let mut second = batch_of(vec![game("g-2")]);
    let mut corrected = map("world", "World (fixed)", 200);
    corrected.lat1_micro = 0;
    second.maps.push(corrected);
    assert!(store.apply_games(second).is_ok());
    assert_eq!(store.maps.len(), 1);
    assert_eq!(store.maps[0].name, "World (fixed)");
    assert_eq!(store.maps[0].max_distance, 200);
    assert_eq!(store.maps[0].lat1_micro, -60_000_000);
}

#[test]
fn locations_and_fun_teams_keep_the_first_row() {
    let mut store = Store::new();
    let mut first = batch_of(vec![game("g-1")]);
    first.locations.push(location("pano-1", Some("FR-IDF")));
    first.fun_teams.push(FunTeamRow {
        team_id: String::from("a-b"),
        player_ids: vec![String::from("a"), String::from("b")],
    });
    assert!(store.apply_games(first).is_ok());
    let mut second = batch_of(vec![game("g-2")]);
    second.locations.push(location("pano-1", None));
    second.fun_teams.push(FunTeamRow {
        team_id: String::from("a-b"),
        player_ids: vec![String::from("b"), String::from("a")],
    });
    assert!(store.apply_games(second).is_ok());
    assert_eq!(store.locations.len(), 1);
    assert_eq!(store.locations[0].subdivision_code, Some(String::from("FR-IDF")));
    assert_eq!(store.fun_teams.len(), 1);
    assert_eq!(store.fun_teams[0].player_ids, vec![String::from("a"), String::from("b")]);
}
