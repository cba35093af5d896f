use geostats::error::IngestError;
use geostats::ingest::{ingest_batch, ingest_match};
use geostats::modes::MovementOption;
use geostats::payload::{
    DuelsGameInput, DuelsGuessInput, DuelsPlayerInput, PanoramaInput, RoundInput, TeamInput,
};
use geostats::store::Store;

fn payload(id: &str) -> DuelsGameInput {
    DuelsGameInput {
        game_id: String::from(id),
        status: String::from("Finished"),
        current_round_number: 1,
        is_rated: true,
        movement_options: MovementOption {
            forbid_moving: true,
            forbid_zooming: false,
            forbid_rotating: false,
        },
        map_slug: String::from("world"),
        map_name: String::from("World"),
        map_max_error_distance: 18_000_000,
        bounds_min_lat_micro: -60_000_000,
        bounds_min_lng_micro: -170_000_000,
        bounds_max_lat_micro: 70_000_000,
        bounds_max_lng_micro: 170_000_000,
        max_map_distance_m: 18_000_000,
        teams: vec![
            TeamInput {
                health: 1500,
                players: vec![DuelsPlayerInput {
                    player_id: String::from("alice"),
                    guesses: vec![DuelsGuessInput {
                        round_number: 1,
                        lat_micro: 1_000_000,
                        lng_micro: 2_000_000,
                        distance_m: 900_000,
                        created: String::from("2024-01-01T12:00:10Z"),
                        is_teams_best_guess_on_round: true,
                        score: None,
                        country_candidates: vec![String::from("GH")],
                        subdivision_candidates: vec![],
                    }],
                    progress_change: None,
                }],
            },
            TeamInput {
                health: 0,
                players: vec![DuelsPlayerInput {
                    player_id: String::from("bob"),
                    guesses: vec![],
                    progress_change: None,
                }],
            },
        ],
        rounds: vec![RoundInput {
            round_number: 1,
            panorama: PanoramaInput {
                pano_id: String::from("pano-1"),
                lat_micro: 1_100_000,
                lng_micro: 2_100_000,
                country_code: String::from("gh"),
                heading_micro: 0,
                pitch_micro: 0,
                zoom_micro: 0,
                subdivision_candidates: vec![],
            },
            damage_multiplier_micro: 1_000_000,
            start_time: Some(String::from("2024-01-01T12:00:00Z")),
        }],
    }
}

#[test]
fn a_match_is_committed_once_and_only_once() {
    let mut store = Store::new();
    let game = payload("g-1");
    assert!(ingest_match(&mut store, &game, vec![], vec![]).is_ok());
    assert_eq!(store.duels_games.len(), 1);
    assert_eq!(store.duels_rounds.len(), 1);
    assert_eq!(store.guesses.len(), 1);
    // the missing score was filled from the decay curve: d/D = 1/20
    assert_eq!(store.guesses[0].score, 3032);

    let snapshot = store.clone();
    let second = ingest_match(&mut store, &game, vec![], vec![]);
    assert_eq!(second, Err(IngestError::AlreadyExists));
    assert!(store == snapshot);
}

#[test]
fn distinct_matches_accumulate() {
    let mut store = Store::new();
    assert!(ingest_match(&mut store, &payload("g-1"), vec![], vec![]).is_ok());
    assert!(ingest_match(&mut store, &payload("g-2"), vec![], vec![]).is_ok());
    assert_eq!(store.duels_games.len(), 2);
    // the shared map and location collapsed under their policies
    assert_eq!(store.maps.len(), 1);
    assert_eq!(store.locations.len(), 1);
}

#[test]
fn an_unfinished_match_commits_nothing() {
    let mut store = Store::new();
    let mut game = payload("g-1");
    game.status = String::from("Started");
    assert_eq!(
        ingest_match(&mut store, &game, vec![], vec![]),
        Err(IngestError::NotFinished)
    );
    assert_eq!(store.duels_games.len(), 0);
}

#[test]
fn a_batch_reports_how_many_matches_it_committed() {
    let mut store = Store::new();
    let a = geostats::assemble::assemble_duels_game(&payload("g-1"), vec![], vec![]).unwrap();
    let b = geostats::assemble::assemble_duels_game(&payload("g-2"), vec![], vec![]).unwrap();
    let outcome = ingest_batch(&mut store, vec![a, b]);
    assert_eq!(outcome, Ok(2));
    assert_eq!(store.duels_games.len(), 2);
}

#[test]
fn an_empty_batch_commits_nothing() {
    let mut store = Store::new();
    let outcome = ingest_batch(&mut store, vec![]);
    assert!(matches!(outcome, Err(IngestError::StorageFailure(_))));
}
