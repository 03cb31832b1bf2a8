use std::collections::HashMap;

use spotify_automation::errors::Error;
use spotify_automation::identity::{
    mostplayed_job, mostplayed_key, mostplayed_name, resolve, timerange_job, timerange_key, timerange_name, title,
    Resolution, REFRESH_TOKEN_KEY,
};
use spotify_automation::selection::Strategy;
use spotify_automation::text::decimal;
use spotify_automation::time_range::TimeRange;

/// Resolves a role against a map standing for the state store, creating a
/// playlist with the next id from `created` when the role is unbound.
fn resolve_in(store: &mut HashMap<String, String>, key: &str, name: &str, created: &mut Vec<String>) -> String {
    match resolve(key.to_string(), name.to_string(), store.get(key).cloned()) {
        Resolution::Existing(id) => id,
        Resolution::Create { key, name } => {
            let id = format!("playlist-{}-{}", created.len(), name.len());
            created.push(id.clone());
            store.insert(key, id.clone());
            id
        }
    }
}

#[test]
fn resolve_creates_once_then_reuses() {
    let mut store = HashMap::new();
    let mut created = Vec::new();
    let key = mostplayed_key("short");
    assert_eq!(key, "spotify_automation_playlist_id:short");
    let first = resolve_in(&mut store, &key, "Top (Short Term)", &mut created);
    assert_eq!(created.len(), 1);
    assert_eq!(store.get(&key), Some(&first));
    let second = resolve_in(&mut store, &key, "Top (Short Term)", &mut created);
    assert_eq!(second, first);
    assert_eq!(created.len(), 1);
}

#[test]
fn resolve_uses_existing_binding() {
    match resolve("k".to_string(), "n".to_string(), Some("abc".to_string())) {
        Resolution::Existing(id) => assert_eq!(id, "abc"),
        Resolution::Create { .. } => panic!("bound role must not be created"),
    }
}

#[test]
fn keys_and_names() {
    assert_eq!(timerange_key(1990, 2000), "spotify_automation_timerange_id:1990-2000");
    assert_eq!(timerange_key(0, 7), "spotify_automation_timerange_id:0-7");
    assert_eq!(mostplayed_name("Top", "short"), "Top (Short Term)");
    assert_eq!(timerange_name(1990, 2000), "Songs from 1990 to 2000");
    assert_eq!(REFRESH_TOKEN_KEY, "spotify_automation_refresh_token");
}

#[test]
fn title_upper_cases_first_character() {
    assert_eq!(title("medium"), "Medium");
    assert_eq!(title(""), "");
    assert_eq!(title("ßa"), "SSa");
    assert_eq!(title("éte"), "Éte");
}

#[test]
fn decimal_digits() {
    assert_eq!(decimal(0), "0");
    assert_eq!(decimal(10), "10");
    assert_eq!(decimal(4294967295), "4294967295");
}

#[test]
fn jobs() {
    let job = mostplayed_job("long", "Current Top Songs", Some(20)).unwrap();
    assert_eq!(job.key, "spotify_automation_playlist_id:long");
    assert_eq!(job.name, "Current Top Songs (Long Term)");
    assert!(matches!(job.strategy, Strategy::TopTracks { range: TimeRange::LongTerm, limit: Some(20) }));
    assert!(matches!(mostplayed_job("weekly", "x", None), Err(Error::InvalidTimeRange)));
    let job = timerange_job(1990, 2000, None).unwrap();
    assert_eq!(job.name, "Songs from 1990 to 2000");
    assert_eq!(job.key, "spotify_automation_timerange_id:1990-2000");
    let job = timerange_job(1990, 2000, Some("Nineties".to_string())).unwrap();
    assert_eq!(job.name, "Nineties");
    assert!(matches!(timerange_job(2000, 2000, None), Err(Error::InvalidYearRange)));
}
