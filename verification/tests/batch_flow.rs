use geostats::batch::{collect_games_data, filter_new_ids, select_game_ids, GameCandidate};
use geostats::modes::{GeoMode, TeamGameMode};
use geostats::rows::{DuelsGameRow, GameData, LocationRow, MapRow};

fn candidate(mode: &str, id: &str) -> GameCandidate {
    GameCandidate { game_mode: String::from(mode), game_id: String::from(id) }
}

#[test]
fn live_challenges_are_filtered_out() {
    let candidates = vec![
        candidate("Duels", "g-1"),
        candidate("LiveChallenge", "g-2"),
        candidate("TeamDuels", "g-3"),
    ];
    let ids = select_game_ids(&candidates);
    assert_eq!(ids, vec![String::from("g-1"), String::from("g-3")]);
}

#[test]
fn at_most_one_chunk_is_selected() {
    let mut candidates = Vec::new();
    for n in 0..80 {
        candidates.push(candidate("Duels", &format!("g-{}", n)));
    }
    let ids = select_game_ids(&candidates);
    assert_eq!(ids.len(), 50);
    assert_eq!(ids[0], "g-0");
    assert_eq!(ids[49], "g-49");
}

#[test]
fn known_ids_are_dropped() {
    let ids = vec![String::from("g-1"), String::from("g-2"), String::from("g-3")];
    let existing = vec![String::from("g-2")];
    assert_eq!(
        filter_new_ids(ids, &existing),
        vec![String::from("g-1"), String::from("g-3")]
    );
}

fn game_row(id: &str) -> DuelsGameRow {
    DuelsGameRow {
        id: String::from(id),
        team_id1: String::from("a"),
        team_id2: String::from("b"),
        health_team1: 0,
        health_team2: 100,
        team_game_mode: TeamGameMode::Duels,
        geo_mode: GeoMode::Moving,
        start_time: String::from("2024-01-01T12:00:00Z"),
        map_id: String::from("world"),
        rating_before_team1: None,
        rating_before_team2: None,
    }
}

fn location_row(id: &str, subdivision: Option<&str>) -> LocationRow {
    LocationRow {
        id: String::from(id),
        lat_micro: 0,
        lng_micro: 0,
        heading_micro: 0,
        pitch_micro: 0,
        zoom_micro: 0,
        country_code: String::from("FR"),
        subdivision_code: subdivision.map(String::from),
    }
}

fn map_row(id: &str) -> MapRow {
    MapRow {
        id: String::from(id),
        name: String::from("World"),
        lat1_micro: 0,
        lng1_micro: 0,
        lat2_micro: 0,
        lng2_micro: 0,
        max_distance: 1000,
    }
}

fn write_set(game_id: &str, locations: Vec<LocationRow>) -> GameData {
    GameData {
        duels_game: game_row(game_id),
        rounds: vec![],
        guesses: vec![],
        locations,
        players: vec![],
        comp_teams: vec![],
        fun_teams: vec![],
        map: map_row("world"),
    }
}

#[test]
fn a_location_seen_in_three_matches_reaches_storage_once() {
    let items = vec![
        write_set("g-1", vec![location_row("pano-1", Some("FR-IDF"))]),
        write_set("g-2", vec![location_row("pano-1", None)]),
        write_set("g-3", vec![location_row("pano-1", Some("FR-NOR"))]),
    ];
    let batch = collect_games_data(items);
    assert_eq!(batch.duels_games.len(), 3);
    assert_eq!(batch.locations.len(), 1);
    assert_eq!(batch.locations[0].subdivision_code, Some(String::from("FR-IDF")));
    // the shared map collapses too
    assert_eq!(batch.maps.len(), 1);
}
