use std::collections::hash_map::DefaultHasher;
use std::hash::{Hash, Hasher};
use geostats::auth::get_salted_password_hash;
use geostats::cache::TtlCache;
use geostats::error::{classify_db_error, IngestError};
use geostats::util::{contains_sub, to_ascii_upper, u64_to_decimal};

#[test]
fn ascii_letters_are_upper_cased() {
    assert_eq!(to_ascii_upper("us"), "US");
    assert_eq!(to_ascii_upper("uS-tx"), "US-TX");
    assert_eq!(to_ascii_upper("ABC123"), "ABC123");
    assert_eq!(to_ascii_upper(""), "");
}

#[test]
fn non_ascii_characters_are_untouched() {
    assert_eq!(to_ascii_upper("déjà vu"), "DéJà VU");
}

#[test]
fn decimal_rendering_matches_std() {
    assert_eq!(u64_to_decimal(0), "0");
    assert_eq!(u64_to_decimal(7), "7");
    assert_eq!(u64_to_decimal(1234567890), "1234567890");
    assert_eq!(u64_to_decimal(u64::MAX), u64::MAX.to_string());
}

#[test]
fn substring_search_finds_and_misses() {
    assert!(contains_sub("hello world", "lo wo"));
    assert!(contains_sub("hello", "hello"));
    assert!(contains_sub("hello", ""));
    assert!(!contains_sub("hello", "world"));
    assert!(!contains_sub("", "a"));
}

#[test]
fn duplicate_key_errors_mean_already_exists() {
    let message = "ERROR: duplicate key value violates unique constraint \"duels_game_pkey\"";
    assert_eq!(classify_db_error(message), IngestError::AlreadyExists);
}

#[test]
fn other_storage_errors_are_surfaced_verbatim() {
    let message = "connection reset by peer";
    assert_eq!(
        classify_db_error(message),
        IngestError::StorageFailure(String::from("connection reset by peer"))
    );
}

#[test]
fn password_hash_matches_the_standard_hasher() {
    let password = String::from("hunter2");
    let salt = String::from("pepper");
    let mut hasher = DefaultHasher::new();
    format!("{}{}", password, salt).hash(&mut hasher);
    let expected = hasher.finish().to_string();
    assert_eq!(get_salted_password_hash(&password, &salt), expected);
}

#[test]
fn password_hash_is_deterministic() {
    let password = String::from("secret");
    let salt = String::from("salt");
    let a = get_salted_password_hash(&password, &salt);
    let b = get_salted_password_hash(&password, &salt);
    assert_eq!(a, b);
    assert!(a.chars().all(|c| c.is_ascii_digit()));
}

#[test]
fn unknown_entities_need_refreshing() {
    let cache = TtlCache::new();
    assert!(cache.should_refresh("player-1", 1_000_000));
}

#[test]
fn recorded_entities_rest_until_expiry() {
    let mut cache = TtlCache::new();
    cache.record("player-1", 1_000_000);
    assert!(!cache.should_refresh("player-1", 1_000_000));
    assert!(!cache.should_refresh("player-1", 1_000_000 + 89_999));
    assert!(cache.should_refresh("player-1", 1_000_000 + 90_000));
    assert!(cache.should_refresh("player-2", 1_000_000));
}

#[test]
fn recording_again_extends_the_entry() {
    let mut cache = TtlCache::new();
    cache.record("team-a", 0);
    cache.record("team-a", 60_000);
    assert!(!cache.should_refresh("team-a", 120_000));
    assert!(cache.should_refresh("team-a", 150_000));
}
