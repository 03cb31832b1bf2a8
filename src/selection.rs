use vstd::prelude::*;

use crate::errors::Error;
use crate::reconcile::{apply_batches, known_ids, known_track_ids, lemma_replace_result, plan_of, EntryModel, Mode};
use crate::time_range::TimeRange;
use crate::year::{parse_u32_spec, year, year_segment};

verus! {

/// How many top tracks are taken when no limit is given.
pub const DEFAULT_TOP_LIMIT: usize = 100;

/// A fetched track: its remote id, if it has one, and its album's release
/// date, if the service gives one.
pub struct TrackRef {
    pub id: Option<String>,
    pub release_date: Option<String>,
}

pub struct TrackModel {
    pub id: EntryModel,
    pub release_date: Option<Seq<char>>,
}

impl View for TrackRef {
    type V = TrackModel;

    open spec fn view(&self) -> TrackModel {
        TrackModel { id: self.id.deep_view(), release_date: self.release_date.deep_view() }
    }
}

pub open spec fn track_models(ts: Seq<TrackRef>) -> Seq<TrackModel> {
    ts.map_values(|t: TrackRef| t@)
}

pub open spec fn entries_of(ts: Seq<TrackModel>) -> Seq<EntryModel> {
    ts.map_values(|t: TrackModel| t.id)
}

/// The year of a release date, when its leading segment is a number.
pub open spec fn release_year(date: Option<Seq<char>>) -> Option<u32> {
    match date {
        Some(d) => parse_u32_spec(year_segment(d)),
        None => None,
    }
}

/// Whether a release date lies in the half-open year range `[from, to)`; a
/// missing or unreadable date does not.
pub open spec fn released_within(date: Option<Seq<char>>, from: u32, to: u32) -> bool {
    match release_year(date) {
        Some(y) => from <= y && y < to,
        None => false,
    }
}

/// The ids of the tracks released within `[from, to)` that have an id, in order.
pub open spec fn released_within_ids(ts: Seq<TrackModel>, from: u32, to: u32) -> Seq<Seq<char>>
    decreases ts.len(),
{
    if ts.len() == 0 {
        Seq::empty()
    } else {
        let rest = released_within_ids(ts.drop_last(), from, to);
        let t = ts.last();
        if released_within(t.release_date, from, to) && t.id is Some {
            rest.push(t.id->0)
        } else {
            rest
        }
    }
}

/// The number of top tracks taken for a requested limit.
pub open spec fn top_limit(limit: Option<usize>) -> nat {
    match limit {
        Some(n) => n as nat,
        None => DEFAULT_TOP_LIMIT as nat,
    }
}

/// Accepts a year range only when `from < to`.
pub fn check_year_range(from: u32, to: u32) -> (r: Result<(), Error>)
    ensures
        r == (if from < to { Ok::<(), Error>(()) } else { Err::<(), Error>(Error::InvalidYearRange) }),
{
    if from < to {
        Ok(())
    } else {
        Err(Error::InvalidYearRange)
    }
}

/// Whether a release date lies in `[from, to)`.
pub fn is_released_within(date: &Option<String>, from: u32, to: u32) -> (r: bool)
    ensures
        r == released_within(date.deep_view(), from, to),
{
    match date {
        Some(d) => match year(d.as_str()) {
            Ok(y) => from <= y && y < to,
            Err(_) => false,
        },
        None => false,
    }
}

/// The ids of the tracks released within `[from, to)`, in order; tracks
/// without an id, without a release date or with an unreadable one are left out.
pub fn release_year_ids(tracks: &Vec<TrackRef>, from: u32, to: u32) -> (r: Vec<String>)
    ensures
        r.deep_view() == released_within_ids(track_models(tracks@), from, to),
{
    let ghost ts = track_models(tracks@);
    let mut r: Vec<String> = Vec::new();
    let mut i: usize = 0;
    while i < tracks.len()
        invariant
            ts == track_models(tracks@),
            i <= tracks.len(),
            r.deep_view() == released_within_ids(ts.take(i as int), from, to),
        decreases tracks.len() - i,
    {
        let ghost before = r.deep_view();
        assert(ts.take(i + 1).drop_last() =~= ts.take(i as int));
        assert(ts.take(i + 1).last() == tracks@[i as int]@);
        let t = &tracks[i];
        if is_released_within(&t.release_date, from, to) {
            match &t.id {
                Some(id) => {
                    r.push(id.clone());
                    assert(r.deep_view() =~= before.push(id@));
                },
                None => {},
            }
        }
        i = i + 1;
    }
    assert(ts.take(tracks.len() as int) =~= ts);
    r
}

/// Every id kept by the release-year filter belongs to a track that has it as
/// its id and whose release year lies in `[from, to)`.
pub proof fn lemma_release_year_ids_within(ts: Seq<TrackModel>, from: u32, to: u32)
    ensures
        forall|k: int|
            0 <= k < released_within_ids(ts, from, to).len() ==> exists|i: int|
                0 <= i < ts.len() && ts[i].id == Some(#[trigger] released_within_ids(ts, from, to)[k])
                    && released_within(ts[i].release_date, from, to),
    decreases ts.len(),
{
    if ts.len() > 0 {
        let p = ts.drop_last();
        lemma_release_year_ids_within(p, from, to);
        let rest = released_within_ids(p, from, to);
        let all = released_within_ids(ts, from, to);
        assert forall|k: int| 0 <= k < all.len() implies exists|i: int|
            0 <= i < ts.len() && ts[i].id == Some(#[trigger] all[k]) && released_within(ts[i].release_date, from, to) by {
            if k < rest.len() {
                assert(all[k] == rest[k]);
                let i = choose|i: int|
                    0 <= i < p.len() && p[i].id == Some(#[trigger] rest[k]) && released_within(p[i].release_date, from, to);
                assert(ts[i] == p[i]);
            } else {
                assert(ts[ts.len() - 1] == ts.last());
            }
        }
    }
}

/// After a year-range playlist is reconciled, whatever it held before, every
/// track id in it belongs to a fetched track released within `[from, to)`.
pub proof fn lemma_year_playlist_within(current: Seq<EntryModel>, ts: Seq<TrackModel>, from: u32, to: u32)
    ensures
        ({
            let strategy = Strategy::ReleaseYearRange { from, to };
            let after = apply_batches(current, plan_of(current, selection_of(strategy, ts), Mode::Replace));
            forall|k: int|
                0 <= k < known_ids(after).len() ==> exists|i: int|
                    0 <= i < ts.len() && ts[i].id == Some(#[trigger] known_ids(after)[k])
                        && released_within(ts[i].release_date, from, to)
        }),
{
    lemma_replace_result(current, released_within_ids(ts, from, to));
    lemma_release_year_ids_within(ts, from, to);
}

/// The ids of the first `top_limit(limit)` tracks that have an id, in order.
pub fn top_track_ids(tracks: &Vec<TrackRef>, limit: Option<usize>) -> (r: Vec<String>)
    ensures
        r.deep_view() == known_ids(entries_of(track_models(tracks@)).take(
            if top_limit(limit) < tracks.len() { top_limit(limit) as int } else { tracks.len() as int },
        )),
{
    let n: usize = match limit {
        Some(l) => if l < tracks.len() { l } else { tracks.len() },
        None => if DEFAULT_TOP_LIMIT < tracks.len() { DEFAULT_TOP_LIMIT } else { tracks.len() },
    };
    let entries = track_ids(tracks, n);
    let r = known_track_ids(&entries);
    r
}

/// The ids of every track that has one, in order.
pub fn all_track_ids(tracks: &Vec<TrackRef>) -> (r: Vec<String>)
    ensures
        r.deep_view() == known_ids(entries_of(track_models(tracks@))),
{
    let entries = track_ids(tracks, tracks.len());
    assert(entries_of(track_models(tracks@)).take(tracks.len() as int) =~= entries_of(track_models(tracks@)));
    known_track_ids(&entries)
}

fn track_ids(tracks: &Vec<TrackRef>, n: usize) -> (r: Vec<Option<String>>)
    requires
        n <= tracks.len(),
    ensures
        r.deep_view() == entries_of(track_models(tracks@)).take(n as int),
{
    let mut r: Vec<Option<String>> = Vec::new();
    let mut i: usize = 0;
    while i < n
        invariant
            n <= tracks.len(),
            i <= n,
            r.deep_view() == entries_of(track_models(tracks@)).take(i as int),
        decreases n - i,
    {
        let ghost before = r.deep_view();
        let id = match &tracks[i].id {
            Some(s) => Some(s.clone()),
            None => None,
        };
        assert(id.deep_view() == tracks@[i as int]@.id);
        r.push(id);
        assert(r.deep_view() =~= before.push(tracks@[i as int]@.id));
        assert(r.deep_view() =~= entries_of(track_models(tracks@)).take(i + 1));
        i = i + 1;
    }
    r
}

/// A way of choosing the tracks of a playlist.
pub enum Strategy {
    /// The user's top tracks over a listening window, up to a limit
    /// (`DEFAULT_TOP_LIMIT` when none is given).
    TopTracks { range: TimeRange, limit: Option<usize> },
    /// The user's saved tracks released within `[from, to)`.
    ReleaseYearRange { from: u32, to: u32 },
    /// The current tracks of another playlist, added to the target.
    ArchiveCopy,
}

/// The tracks that a strategy chooses from the fetched ones.
pub open spec fn selection_of(strategy: Strategy, ts: Seq<TrackModel>) -> Seq<Seq<char>> {
    match strategy {
        Strategy::TopTracks { limit, .. } => known_ids(
            entries_of(ts).take(if top_limit(limit) < ts.len() { top_limit(limit) as int } else { ts.len() as int }),
        ),
        Strategy::ReleaseYearRange { from, to } => released_within_ids(ts, from, to),
        Strategy::ArchiveCopy => known_ids(entries_of(ts)),
    }
}

impl Strategy {
    /// Rejects what the strategy's parameters make impossible, before anything
    /// is fetched: a year range whose `from` is not below `to`.
    pub fn validate(&self) -> (r: Result<(), Error>)
        ensures
            r == (match *self {
                Strategy::ReleaseYearRange { from, to } => if from < to {
                    Ok::<(), Error>(())
                } else {
                    Err::<(), Error>(Error::InvalidYearRange)
                },
                _ => Ok::<(), Error>(()),
            }),
    {
        match self {
            Strategy::ReleaseYearRange { from, to } => check_year_range(*from, *to),
            _ => Ok(()),
        }
    }

    /// How the chosen tracks are brought into the target playlist: archive
    /// copies add, the other strategies replace.
    pub fn mode(&self) -> (r: Mode)
        ensures
            r == (match *self {
                Strategy::ArchiveCopy => Mode::Append,
                _ => Mode::Replace,
            }),
    {
        match self {
            Strategy::ArchiveCopy => Mode::Append,
            _ => Mode::Replace,
        }
    }

    /// The ids of the fetched tracks that the strategy chooses, in order.
    pub fn select(&self, tracks: &Vec<TrackRef>) -> (r: Vec<String>)
        ensures
            r.deep_view() == selection_of(*self, track_models(tracks@)),
    {
        match self {
            Strategy::TopTracks { limit, .. } => top_track_ids(tracks, *limit),
            Strategy::ReleaseYearRange { from, to } => release_year_ids(tracks, *from, *to),
            Strategy::ArchiveCopy => all_track_ids(tracks),
        }
    }
}

} // verus!
