use country_boundaries::{CountryBoundaries, LatLon, BOUNDARIES_ODBL_360X180};
use geostats::geo::{resolve_country, resolve_subdivision};
use geostats::score::calculate_score;

#[test]
fn zero_distance_earns_the_full_score() {
    assert_eq!(calculate_score(0, 1000), 5000);
    assert_eq!(calculate_score(0, 1), 5000);
}

#[test]
fn score_follows_the_decay_curve() {
    // one tenth of the map: e^-1 of the maximum
    assert_eq!(calculate_score(100, 1000), 1839);
    assert_eq!(calculate_score(250, 1000), 410);
    assert_eq!(calculate_score(500, 1000), 33);
    assert_eq!(calculate_score(1000, 2000), 33);
    assert_eq!(calculate_score(123456, 1000000), 1454);
}

#[test]
fn far_guesses_earn_nothing() {
    assert_eq!(calculate_score(1000, 1000), 0);
    assert_eq!(calculate_score(5000, 1000), 0);
    assert_eq!(calculate_score(u64::MAX, 1000), 0);
}

#[test]
fn score_never_increases_with_distance() {
    let mut previous = calculate_score(0, 10000);
    let mut d: u64 = 0;
    while d <= 20000 {
        let s = calculate_score(d, 10000);
        assert!(s <= previous);
        assert!((0..=5000).contains(&s));
        previous = s;
        d += 250;
    }
}

#[test]
fn no_candidates_yields_no_country() {
    assert_eq!(resolve_country(&vec![]), None);
    assert_eq!(resolve_subdivision(&vec![]), None);
}

#[test]
fn last_candidate_wins_by_default() {
    let codes = vec![String::from("US-TX"), String::from("US")];
    assert_eq!(resolve_country(&codes), Some(String::from("US")));
}

#[test]
fn priority_candidate_overrides_the_last() {
    let codes = vec![String::from("PR"), String::from("US")];
    assert_eq!(resolve_country(&codes), Some(String::from("PR")));
    let codes = vec![String::from("NL"), String::from("CW"), String::from("XX")];
    assert_eq!(resolve_country(&codes), Some(String::from("CW")));
}

#[test]
fn priority_in_last_place_needs_no_override() {
    let codes = vec![String::from("US"), String::from("PR")];
    assert_eq!(resolve_country(&codes), Some(String::from("PR")));
}

#[test]
fn single_candidate_is_taken() {
    let codes = vec![String::from("DE")];
    assert_eq!(resolve_country(&codes), Some(String::from("DE")));
}

#[test]
fn subdivision_takes_the_first_candidate() {
    let codes = vec![String::from("US-TX"), String::from("US-OK")];
    assert_eq!(resolve_subdivision(&codes), Some(String::from("US-TX")));
}

fn query(boundaries: &CountryBoundaries, lat: f64, lng: f64) -> Vec<String> {
    boundaries
        .ids(LatLon::new(lat, lng).unwrap())
        .into_iter()
        .map(String::from)
        .collect()
}

#[test]
fn mid_atlantic_coordinate_resolves_to_nothing() {
    // a coordinate such as (0, -30) lies outside every polygon of a
    // land-only boundary set, so its query comes back empty
    let candidates: Vec<String> = vec![];
    assert_eq!(resolve_country(&candidates), None);
    assert_eq!(resolve_subdivision(&candidates), None);
}

#[test]
fn open_ocean_coordinate_resolves_to_nothing() {
    let boundaries = CountryBoundaries::from_reader(BOUNDARIES_ODBL_360X180).unwrap();
    let candidates = query(&boundaries, -45.0, -35.0);
    assert!(candidates.is_empty(), "unexpected ids: {:?}", candidates);
    assert_eq!(resolve_country(&candidates), None);
    assert_eq!(resolve_subdivision(&candidates), None);
}

#[test]
fn texas_coordinate_resolves_to_its_country() {
    let boundaries = CountryBoundaries::from_reader(BOUNDARIES_ODBL_360X180).unwrap();
    let candidates = query(&boundaries, 33.0, -97.0);
    assert!(!candidates.is_empty());
    assert_eq!(resolve_country(&candidates), Some(String::from("US")));
}
