use geostats::assemble::{assemble_duels_game, assemble_solo_game};
use geostats::error::IngestError;
use geostats::modes::{GeoMode, MovementOption, TeamGameMode};
use geostats::payload::{
    DuelsGameInput, DuelsGuessInput, DuelsPlayerInput, PanoramaInput, Points, ProgressChange,
    RankedSystemProgress, RoundInput, SoloGameInput, SoloGuessInput, SoloRoundInput, TeamInput,
};
use geostats::store::Store;

const NOON: i64 = 1_704_110_400_000; // 2024-01-01T12:00:00Z

fn duels_guess(round_number: i32, score: Option<i32>, country: &str) -> DuelsGuessInput {
    DuelsGuessInput {
        round_number,
        lat_micro: 48_858_000,
        lng_micro: 2_294_000,
        distance_m: 250,
        created: String::from("2024-01-01T12:00:30Z"),
        is_teams_best_guess_on_round: true,
        score,
        country_candidates: vec![String::from(country)],
        subdivision_candidates: vec![],
    }
}

fn duels_player(id: &str, guesses: Vec<DuelsGuessInput>) -> DuelsPlayerInput {
    DuelsPlayerInput { player_id: String::from(id), guesses, progress_change: None }
}

fn duels_round(round_number: i32, pano: &str, country: &str) -> RoundInput {
    RoundInput {
        round_number,
        panorama: PanoramaInput {
            pano_id: String::from(pano),
            lat_micro: 48_850_000,
            lng_micro: 2_300_000,
            country_code: String::from(country),
            heading_micro: 180_000_000,
            pitch_micro: 0,
            zoom_micro: 0,
            subdivision_candidates: vec![String::from("FR-IDF")],
        },
        damage_multiplier_micro: 1_000_000,
        start_time: Some(String::from("2024-01-01T12:00:00Z")),
    }
}

fn duels_game(id: &str, teams: Vec<TeamInput>, rounds: Vec<RoundInput>, rated: bool) -> DuelsGameInput {
    DuelsGameInput {
        game_id: String::from(id),
        status: String::from("Finished"),
        current_round_number: 2,
        is_rated: rated,
        movement_options: MovementOption {
            forbid_moving: false,
            forbid_zooming: false,
            forbid_rotating: false,
        },
        map_slug: String::from("world"),
        map_name: String::from("World"),
        map_max_error_distance: 18_000_000,
        bounds_min_lat_micro: -60_000_000,
        bounds_min_lng_micro: -170_000_000,
        bounds_max_lat_micro: 70_000_000,
        bounds_max_lng_micro: 170_000_000,
        max_map_distance_m: 18_000_000,
        teams,
        rounds,
    }
}

fn one_v_one(id: &str) -> DuelsGameInput {
    let team1 = TeamInput {
        health: 2200,
        players: vec![duels_player("alice", vec![duels_guess(1, Some(4800), "fr")])],
    };
    let team2 = TeamInput {
        health: 0,
        players: vec![duels_player("bob", vec![duels_guess(2, Some(3100), "de")])],
    };
    duels_game(
        id,
        vec![team1, team2],
        vec![duels_round(1, "pano-1", "fr"), duels_round(2, "pano-2", "de")],
        false,
    )
}

#[test]
fn finished_one_v_one_yields_its_full_write_set() {
    let game = one_v_one("g-1");
    let data = assemble_duels_game(&game, vec![], vec![]).unwrap();

    assert_eq!(data.duels_game.id, "g-1");
    assert_eq!(data.duels_game.team_id1, "alice");
    assert_eq!(data.duels_game.team_id2, "bob");
    assert_eq!(data.duels_game.team_game_mode, TeamGameMode::Duels);
    assert_eq!(data.duels_game.geo_mode, GeoMode::Moving);
    assert_eq!(data.duels_game.start_time, "2024-01-01T12:00:00Z");
    assert_eq!(data.duels_game.health_team1, 2200);
    assert_eq!(data.duels_game.health_team2, 0);

    assert_eq!(data.rounds.len(), 2);
    assert_eq!(data.rounds[0].round_number, 0);
    assert_eq!(data.rounds[1].round_number, 1);
    assert_eq!(data.rounds[0].location_id, "pano-1");
    assert_eq!(data.rounds[1].location_id, "pano-2");
    assert_eq!(data.rounds[0].round_country_code, "FR");
    assert_eq!(data.rounds[1].round_country_code, "DE");

    assert_eq!(data.locations.len(), 2);
    assert_eq!(data.locations[0].id, "pano-1");
    assert_eq!(data.locations[0].country_code, "FR");
    assert_eq!(data.locations[1].country_code, "DE");
    assert_eq!(data.locations[0].subdivision_code, Some(String::from("FR-IDF")));

    assert_eq!(data.guesses.len(), 2);
    assert_eq!(data.guesses[0].team_id, "alice");
    assert_eq!(data.guesses[0].score, 4800);
    assert_eq!(data.guesses[0].round_id, data.rounds[0].id);
    assert_eq!(data.guesses[0].time, Some(30));
    assert_eq!(data.guesses[0].date_millis, NOON + 30_000);
    assert_eq!(data.guesses[0].country_code, Some(String::from("fr")));
    assert_eq!(data.guesses[1].team_id, "bob");
    assert_eq!(data.guesses[1].score, 3100);
    assert_eq!(data.guesses[1].round_id, data.rounds[1].id);

    assert_eq!(data.map.id, "world");
    assert_eq!(data.map.max_distance, 18_000_000);
    assert!(data.players.is_empty());
    assert!(data.comp_teams.is_empty());
    assert!(data.fun_teams.is_empty());
}

fn ranked_progress(rating_before: i32) -> ProgressChange {
    ProgressChange {
        medal: 0,
        ranked_system_progress: Some(RankedSystemProgress {
            points: Points {
                win_within_weekly_cap: None,
                first_win_of_the_day: None,
                win_rounds: None,
            },
            total_weekly_points: 0,
            weekly_cap: 0,
            games_played_within_weekly_cap: 0,
            position_before: None,
            position_after: None,
            rating_before: Some(rating_before),
            rating_after: None,
            win_streak: 0,
            bucket_sorted_by: String::new(),
            game_mode: String::new(),
            game_mode_rating_before: None,
            game_mode_rating_after: None,
            game_mode_games_played: 0,
            game_mode_games_required: 0,
            placement_games_played: 0,
            placement_games_required: 0,
        }),
        ranked_team_duels_progress: None,
    }
}

#[test]
fn each_team_keeps_its_own_pre_match_rating() {
    let mut game = one_v_one("g-1");
    game.is_rated = true;
    game.teams[0].players[0].progress_change = Some(ranked_progress(1200));
    game.teams[1].players[0].progress_change = Some(ranked_progress(900));
    let data = assemble_duels_game(&game, vec![], vec![]).unwrap();
    assert_eq!(data.duels_game.team_id1, "alice");
    assert_eq!(data.duels_game.rating_before_team1, Some(1200));
    assert_eq!(data.duels_game.team_id2, "bob");
    assert_eq!(data.duels_game.rating_before_team2, Some(900));
}

#[test]
fn ratings_are_absent_unless_both_sides_report() {
    let mut game = one_v_one("g-1");
    game.is_rated = true;
    game.teams[0].players[0].progress_change = Some(ranked_progress(1200));
    let data = assemble_duels_game(&game, vec![], vec![]).unwrap();
    assert_eq!(data.duels_game.rating_before_team1, None);
    assert_eq!(data.duels_game.rating_before_team2, None);
}

#[test]
fn unfinished_matches_are_rejected() {
    let mut game = one_v_one("g-1");
    game.status = String::from("Started");
    assert_eq!(assemble_duels_game(&game, vec![], vec![]), Err(IngestError::NotFinished));
}

#[test]
fn a_match_without_two_teams_cannot_be_assembled() {
    let mut game = one_v_one("g-1");
    game.teams.pop();
    assert!(matches!(
        assemble_duels_game(&game, vec![], vec![]),
        Err(IngestError::UpstreamFetchFailure(_))
    ));
}

#[test]
fn an_unparseable_guess_timestamp_is_surfaced() {
    let mut game = one_v_one("g-1");
    game.teams[0].players[0].guesses[0].created = String::from("not a timestamp");
    assert!(matches!(
        assemble_duels_game(&game, vec![], vec![]),
        Err(IngestError::UpstreamFetchFailure(_))
    ));
}

#[test]
fn rounds_beyond_the_recorded_progress_are_excluded() {
    let mut game = one_v_one("g-1");
    game.rounds.push(duels_round(3, "pano-3", "es"));
    game.current_round_number = 2;
    let data = assemble_duels_game(&game, vec![], vec![]).unwrap();
    assert_eq!(data.rounds.len(), 2);
    assert_eq!(data.locations.len(), 2);
}

#[test]
fn a_missing_score_is_calculated_from_the_distance() {
    let mut game = one_v_one("g-1");
    game.teams[0].players[0].guesses[0].score = None;
    game.teams[0].players[0].guesses[0].distance_m = 1_800_000;
    game.max_map_distance_m = 18_000_000;
    let data = assemble_duels_game(&game, vec![], vec![]).unwrap();
    // one tenth of the map's corner distance: e^-1 of the maximum
    assert_eq!(data.guesses[0].score, 1839);
    assert_eq!(data.guesses[1].score, 3100);
}

fn two_v_two(id: &str, first: &str, second: &str, third: &str, fourth: &str) -> DuelsGameInput {
    let team1 = TeamInput {
        health: 1000,
        players: vec![
            duels_player(first, vec![duels_guess(1, Some(4000), "fr")]),
            duels_player(second, vec![]),
        ],
    };
    let team2 = TeamInput {
        health: 0,
        players: vec![
            duels_player(third, vec![duels_guess(1, Some(2000), "de")]),
            duels_player(fourth, vec![]),
        ],
    };
    duels_game(id, vec![team1, team2], vec![duels_round(1, "pano-1", "fr")], false)
}

#[test]
fn casual_team_pairings_converge_on_one_row() {
    let first_sight = two_v_two("g-1", "carol", "dave", "erin", "frank");
    let second_sight = two_v_two("g-2", "dave", "carol", "frank", "erin");

    let data1 = assemble_duels_game(&first_sight, vec![], vec![]).unwrap();
    let data2 = assemble_duels_game(&second_sight, vec![], vec![]).unwrap();

    assert_eq!(data1.duels_game.team_game_mode, TeamGameMode::TeamDuels);
    assert_eq!(data1.duels_game.team_id1, "carol-dave");
    assert_eq!(data2.duels_game.team_id1, "carol-dave");
    assert_eq!(data1.fun_teams.len(), 2);
    assert_eq!(data1.fun_teams[0].team_id, "carol-dave");
    assert_eq!(data1.guesses[0].team_id, "carol-dave");

    let mut store = Store::new();
    let batch1 = geostats::batch::collect_games_data(vec![data1]);
    let batch2 = geostats::batch::collect_games_data(vec![data2]);
    assert!(store.apply_games(batch1).is_ok());
    assert!(store.apply_games(batch2).is_ok());
    let same_pairing = store
        .fun_teams
        .iter()
        .filter(|t| t.team_id == "carol-dave")
        .count();
    assert_eq!(same_pairing, 1);
    // the stored row is the first observation's
    assert_eq!(
        store.fun_teams[0].player_ids,
        vec![String::from("carol"), String::from("dave")]
    );
}

fn solo_game(id: &str) -> SoloGameInput {
    SoloGameInput {
        token: String::from(id),
        state: String::from("finished"),
        forbid_moving: true,
        forbid_zooming: true,
        forbid_rotating: true,
        map: String::from("world"),
        map_name: String::from("World"),
        bounds_min_lat_micro: -60_000_000,
        bounds_min_lng_micro: -170_000_000,
        bounds_max_lat_micro: 70_000_000,
        bounds_max_lng_micro: 170_000_000,
        diagonal_m: 18_000_000,
        player_id: String::from("alice"),
        rounds: vec![SoloRoundInput {
            lat_micro: 48_850_000,
            lng_micro: 2_300_000,
            pano_id: String::from("pano-9"),
            heading_micro: 0,
            pitch_micro: 0,
            zoom_micro: 0,
            streak_location_code: String::from("fr"),
            start_time: Some(String::from("2024-01-01T12:00:00Z")),
            subdivision_candidates: vec![String::from("FR-IDF")],
        }],
        guesses: vec![SoloGuessInput {
            lat_micro: 48_858_000,
            lng_micro: 2_294_000,
            round_score_in_points: 4999,
            distance_m: 120,
            time: 25,
            country_candidates: vec![String::from("FR")],
        }],
    }
}

#[test]
fn finished_solo_game_yields_its_write_set() {
    let game = solo_game("s-1");
    let requested = String::from("s-1");
    let data = assemble_solo_game(&requested, &game, None).unwrap();
    assert_eq!(data.solo_game.id, "s-1");
    assert_eq!(data.solo_game.player_id, "alice");
    assert_eq!(data.solo_game.geo_mode, GeoMode::NMPZ);
    assert_eq!(data.rounds.len(), 1);
    assert_eq!(data.rounds[0].round_number, 0);
    assert_eq!(data.guesses.len(), 1);
    assert_eq!(data.guesses[0].score, 4999);
    assert_eq!(data.guesses[0].time, Some(25));
    assert_eq!(data.guesses[0].date_millis, NOON + 25_000);
    assert_eq!(data.guesses[0].team_id, "alice");
    assert_eq!(data.guesses[0].country_code, Some(String::from("FR")));
    assert_eq!(data.guesses[0].subdivision_code, Some(String::from("FR-IDF")));
    assert!(data.guesses[0].is_teams_best);
    assert_eq!(data.locations[0].country_code, "FR");
    assert_eq!(data.map.max_distance, 18_000_000);
    assert!(data.player.is_none());
}

#[test]
fn unfinished_solo_games_are_rejected() {
    let mut game = solo_game("s-1");
    game.state = String::from("started");
    let requested = String::from("s-1");
    assert_eq!(
        assemble_solo_game(&requested, &game, None),
        Err(IngestError::NotFinished)
    );
}

#[test]
fn solo_store_commit_is_idempotent_in_effect() {
    let game = solo_game("s-1");
    let requested = String::from("s-1");
    let data = assemble_solo_game(&requested, &game, None).unwrap();
    let mut store = Store::new();
    assert!(store.apply_solo(data).is_ok());
    let snapshot = store.clone();
    let again = assemble_solo_game(&requested, &game, None).unwrap();
    let mut with_same_id = again;
    // the game row carries the same token, so the commit conflicts
    with_same_id.rounds.clear();
    with_same_id.guesses.clear();
    let outcome = store.apply_solo(with_same_id);
    assert_eq!(outcome, Err(IngestError::AlreadyExists));
    assert!(store == snapshot);
}
