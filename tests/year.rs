use spotify_automation::errors::Error;
use spotify_automation::selection::{is_released_within, release_year_ids, check_year_range, TrackRef};
use spotify_automation::year::{parse_u32, year};

fn track(id: Option<&str>, date: Option<&str>) -> TrackRef {
    TrackRef { id: id.map(|s| s.to_string()), release_date: date.map(|s| s.to_string()) }
}

#[test]
fn test_year() {
    assert!(matches!(year("2023"), Ok(v) if v == 2023));
    assert!(matches!(year("1998-12-12"), Ok(v) if v == 1998));
}

#[test]
fn year_of_month_precision_date() {
    assert_eq!(year("1987-06"), Ok(1987));
}

#[test]
fn year_rejects_non_numeric_segment() {
    assert_eq!(year("abcd-01-01"), Err(Error::InvalidYear));
    assert_eq!(year(""), Err(Error::InvalidYear));
    assert_eq!(year("-1998"), Err(Error::InvalidYear));
    assert_eq!(year("19x8"), Err(Error::InvalidYear));
}

#[test]
fn parse_u32_edges() {
    assert_eq!(parse_u32("0"), Some(0));
    assert_eq!(parse_u32("+42"), Some(42));
    assert_eq!(parse_u32("+"), None);
    assert_eq!(parse_u32("4294967295"), Some(4294967295));
    assert_eq!(parse_u32("4294967296"), None);
    assert_eq!(parse_u32("0004294967295"), Some(4294967295));
    assert_eq!(parse_u32(" 1"), None);
}

#[test]
fn release_year_filter_keeps_half_open_range() {
    let tracks = vec![
        track(Some("a"), Some("1989-12-31")),
        track(Some("b"), Some("1990-01-01")),
        track(Some("c"), Some("1999")),
        track(Some("d"), Some("2000-01-01")),
        track(None, Some("1995")),
        track(Some("e"), None),
        track(Some("f"), Some("unknown")),
        track(Some("g"), Some("1995-05")),
    ];
    let ids = release_year_ids(&tracks, 1990, 2000);
    assert_eq!(ids, vec!["b".to_string(), "c".to_string(), "g".to_string()]);
}

#[test]
fn release_date_membership() {
    assert!(is_released_within(&Some("1990".to_string()), 1990, 1991));
    assert!(!is_released_within(&Some("1991".to_string()), 1990, 1991));
    assert!(!is_released_within(&None, 0, 4000));
}

#[test]
fn year_range_must_be_increasing() {
    assert_eq!(check_year_range(1990, 2000), Ok(()));
    assert_eq!(check_year_range(2000, 2000), Err(Error::InvalidYearRange));
    assert_eq!(check_year_range(2001, 2000), Err(Error::InvalidYearRange));
}
