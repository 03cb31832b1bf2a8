use spotify_automation::errors::Error;
use spotify_automation::reconcile::Mode;
use spotify_automation::selection::{top_track_ids, Strategy, TrackRef};
use spotify_automation::time_range::{split_time_ranges, time_range_from_str, TimeRange};

fn track(id: Option<&str>) -> TrackRef {
    TrackRef { id: id.map(|s| s.to_string()), release_date: None }
}

#[test]
fn time_range_names() {
    assert_eq!(time_range_from_str("short"), Ok(TimeRange::ShortTerm));
    assert_eq!(time_range_from_str("medium"), Ok(TimeRange::MediumTerm));
    assert_eq!(time_range_from_str("long"), Ok(TimeRange::LongTerm));
    assert_eq!(time_range_from_str("Short"), Err(Error::InvalidTimeRange));
    assert_eq!(time_range_from_str(""), Err(Error::InvalidTimeRange));
    assert_eq!(time_range_from_str("long "), Err(Error::InvalidTimeRange));
}

#[test]
fn time_range_list_is_split_and_trimmed() {
    assert_eq!(split_time_ranges(" short, medium ,long"), vec!["short", "medium", "long"]);
    assert_eq!(split_time_ranges("short"), vec!["short"]);
    assert_eq!(split_time_ranges(""), vec![""]);
    assert_eq!(split_time_ranges("a,,b"), vec!["a", "", "b"]);
}

#[test]
fn top_tracks_take_the_limit_first() {
    let tracks = vec![track(Some("a")), track(None), track(Some("b")), track(Some("c"))];
    assert_eq!(top_track_ids(&tracks, Some(3)), vec!["a", "b"]);
    assert_eq!(top_track_ids(&tracks, Some(0)), Vec::<String>::new());
    assert_eq!(top_track_ids(&tracks, None), vec!["a", "b", "c"]);
}

#[test]
fn top_tracks_default_limit_is_one_hundred() {
    let tracks: Vec<TrackRef> = (0..150).map(|i| TrackRef { id: Some(format!("t{i}")), release_date: None }).collect();
    assert_eq!(top_track_ids(&tracks, None).len(), 100);
}

#[test]
fn strategies() {
    let s = Strategy::ReleaseYearRange { from: 2000, to: 1990 };
    assert_eq!(s.validate(), Err(Error::InvalidYearRange));
    assert_eq!(s.mode(), Mode::Replace);
    let a = Strategy::ArchiveCopy;
    assert_eq!(a.validate(), Ok(()));
    assert_eq!(a.mode(), Mode::Append);
    let tracks = vec![track(Some("x")), track(None), track(Some("y"))];
    assert_eq!(a.select(&tracks), vec!["x", "y"]);
    let t = Strategy::TopTracks { range: TimeRange::ShortTerm, limit: Some(1) };
    assert_eq!(t.select(&tracks), vec!["x"]);
    assert_eq!(t.mode(), Mode::Replace);
}
