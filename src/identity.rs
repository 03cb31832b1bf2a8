use vstd::prelude::*;

use crate::errors::Error;
use crate::selection::{check_year_range, Strategy};
use crate::text::{concat, decimal, decimal_string};
use crate::time_range::{time_range_from_str, time_range_of};

verus! {

/// State-store key under which the refresh credential is kept.
pub const REFRESH_TOKEN_KEY: &'static str = "spotify_automation_refresh_token";

/// Key prefix of the playlists of most-played tracks, one per time range.
pub const MOSTPLAYED_PREFIX: &'static str = "spotify_automation_playlist_id";

/// Key prefix of the playlists of tracks released in a year range.
pub const TIMERANGE_PREFIX: &'static str = "spotify_automation_timerange_id";

/// The characters that `char::to_uppercase` yields for `c`.
pub uninterp spec fn upper_of(c: char) -> Seq<char>;

/// Relies on `char::to_uppercase`: the upper-case form of one character, which
/// may be several characters long; it depends on the character alone.
#[verifier::external_body]
fn uppercase_char(c: char) -> (r: String)
    ensures
        r@ == upper_of(c),
{
    c.to_uppercase().collect()
}

/// `v` with its first character in upper case.
pub open spec fn title_of(v: Seq<char>) -> Seq<char> {
    if v.len() == 0 {
        Seq::empty()
    } else {
        upper_of(v[0]) + v.skip(1)
    }
}

/// `v` with its first character in upper case; the empty string stays empty.
pub fn title(v: &str) -> (r: String)
    ensures
        r@ == title_of(v@),
{
    let n = v.unicode_len();
    if n == 0 {
        return String::new();
    }
    let mut first = uppercase_char(v.get_char(0));
    first.append(v.substring_char(1, n));
    assert(v@.subrange(1, n as int) =~= v@.skip(1));
    first
}

pub open spec fn mostplayed_key_of(time_range: Seq<char>) -> Seq<char> {
    MOSTPLAYED_PREFIX@ + ":"@ + time_range
}

pub open spec fn timerange_key_of(from: u32, to: u32) -> Seq<char> {
    TIMERANGE_PREFIX@ + ":"@ + decimal_string(from as nat) + "-"@ + decimal_string(to as nat)
}

pub open spec fn mostplayed_name_of(prefix: Seq<char>, time_range: Seq<char>) -> Seq<char> {
    prefix + " ("@ + title_of(time_range) + " Term)"@
}

pub open spec fn timerange_name_of(from: u32, to: u32) -> Seq<char> {
    "Songs from "@ + decimal_string(from as nat) + " to "@ + decimal_string(to as nat)
}

/// Store key of the most-played playlist of a time range:
/// `spotify_automation_playlist_id:<time range>`.
pub fn mostplayed_key(time_range: &str) -> (r: String)
    ensures
        r@ == mostplayed_key_of(time_range@),
{
    let mut s = concat(MOSTPLAYED_PREFIX, ":");
    s.append(time_range);
    s
}

/// Store key of the playlist of a year range:
/// `spotify_automation_timerange_id:<from>-<to>`.
pub fn timerange_key(from: u32, to: u32) -> (r: String)
    ensures
        r@ == timerange_key_of(from, to),
{
    let mut s = concat(TIMERANGE_PREFIX, ":");
    s.append(decimal(from).as_str());
    s.append("-");
    s.append(decimal(to).as_str());
    s
}

/// Display name of a most-played playlist: `<prefix> (<Time range> Term)`.
pub fn mostplayed_name(prefix: &str, time_range: &str) -> (r: String)
    ensures
        r@ == mostplayed_name_of(prefix@, time_range@),
{
    let mut s = concat(prefix, " (");
    s.append(title(time_range).as_str());
    s.append(" Term)");
    s
}

/// Default display name of a year-range playlist: `Songs from <from> to <to>`.
pub fn timerange_name(from: u32, to: u32) -> (r: String)
    ensures
        r@ == timerange_name_of(from, to),
{
    let mut s = String::from_str("Songs from ");
    s.append(decimal(from).as_str());
    s.append(" to ");
    s.append(decimal(to).as_str());
    s
}

/// A playlist to keep up to date: the store key of its logical role, the
/// name it is created with, and how its tracks are chosen.
pub struct PlaylistJob {
    pub key: String,
    pub name: String,
    pub strategy: Strategy,
}

/// The job for the most-played playlist of a time range; an unknown time
/// range is rejected with `InvalidTimeRange` before anything else happens.
pub fn mostplayed_job(time_range: &str, name_prefix: &str, limit: Option<usize>) -> (r: Result<PlaylistJob, Error>)
    ensures
        match time_range_of(time_range@) {
            None => r == Err::<PlaylistJob, Error>(Error::InvalidTimeRange),
            Some(t) => (r matches Ok(job) && job.key@ == mostplayed_key_of(time_range@)
                && job.name@ == mostplayed_name_of(name_prefix@, time_range@)
                && job.strategy == (Strategy::TopTracks { range: t, limit })),
        },
{
    let range = time_range_from_str(time_range)?;
    Ok(PlaylistJob {
        key: mostplayed_key(time_range),
        name: mostplayed_name(name_prefix, time_range),
        strategy: Strategy::TopTracks { range, limit },
    })
}

/// The job for the playlist of tracks released within `[from, to)`, named
/// `name` or, without one, `Songs from <from> to <to>`; `from >= to` is
/// rejected with `InvalidYearRange` before anything else happens.
pub fn timerange_job(from: u32, to: u32, name: Option<String>) -> (r: Result<PlaylistJob, Error>)
    ensures
        from >= to ==> r == Err::<PlaylistJob, Error>(Error::InvalidYearRange),
        from < to ==> (r matches Ok(job) && job.key@ == timerange_key_of(from, to) && job.name@ == (match name {
            Some(n) => n@,
            None => timerange_name_of(from, to),
        }) && job.strategy == (Strategy::ReleaseYearRange { from, to })),
{
    check_year_range(from, to)?;
    let name = match name {
        Some(n) => n,
        None => timerange_name(from, to),
    };
    Ok(PlaylistJob { key: timerange_key(from, to), name, strategy: Strategy::ReleaseYearRange { from, to } })
}

/// What to do to find the remote playlist of a logical role.
pub enum Resolution {
    /// The role is bound to this remote playlist id.
    Existing(String),
    /// The role is unbound: create a playlist named `name` and bind its id to
    /// `key` before going on.
    Create { key: String, name: String },
}

pub enum ResolutionModel {
    Existing(Seq<char>),
    Create { key: Seq<char>, name: Seq<char> },
}

impl View for Resolution {
    type V = ResolutionModel;

    open spec fn view(&self) -> ResolutionModel {
        match self {
            Resolution::Existing(id) => ResolutionModel::Existing(id@),
            Resolution::Create { key, name } => ResolutionModel::Create { key: key@, name: name@ },
        }
    }
}

/// The state store as a map from key to value.
pub type StoreModel = Map<Seq<char>, Seq<char>>;

pub open spec fn lookup(store: StoreModel, key: Seq<char>) -> Option<Seq<char>> {
    if store.contains_key(key) {
        Some(store[key])
    } else {
        None
    }
}

pub open spec fn resolution_of(binding: Option<Seq<char>>, key: Seq<char>, name: Seq<char>) -> ResolutionModel {
    match binding {
        Some(id) => ResolutionModel::Existing(id),
        None => ResolutionModel::Create { key, name },
    }
}

/// The store after a resolution is carried out, `created` being the id of
/// the playlist made for an unbound role.
pub open spec fn store_after(store: StoreModel, r: ResolutionModel, created: Seq<char>) -> StoreModel {
    match r {
        ResolutionModel::Existing(_) => store,
        ResolutionModel::Create { key, .. } => store.insert(key, created),
    }
}

/// The remote id that a resolution ends with.
pub open spec fn resolved_id(r: ResolutionModel, created: Seq<char>) -> Seq<char> {
    match r {
        ResolutionModel::Existing(id) => id,
        ResolutionModel::Create { .. } => created,
    }
}

/// Decides from the value bound to a role's key (`binding`) whether the
/// existing playlist is used or a new one is created and bound.
pub fn resolve(key: String, name: String, binding: Option<String>) -> (r: Resolution)
    ensures
        r@ == resolution_of(binding.deep_view(), key@, name@),
{
    match binding {
        Some(id) => Resolution::Existing(id),
        None => Resolution::Create { key, name },
    }
}

/// A role without a binding gets a new playlist, whose id is bound to the
/// role's key; resolving the same role again uses that playlist and creates
/// none, leaving the store as it is.
pub proof fn lemma_resolve_twice(
    store: StoreModel,
    key: Seq<char>,
    name: Seq<char>,
    created: Seq<char>,
    created_again: Seq<char>,
)
    requires
        !store.contains_key(key),
    ensures
        ({
            let first = resolution_of(lookup(store, key), key, name);
            let bound = store_after(store, first, created);
            let second = resolution_of(lookup(bound, key), key, name);
            &&& first == ResolutionModel::Create { key, name }
            &&& resolved_id(first, created) == created
            &&& lookup(bound, key) == Some(created)
            &&& second == ResolutionModel::Existing(created)
            &&& resolved_id(second, created_again) == created
            &&& store_after(bound, second, created_again) == bound
        }),
{
}

} // verus!
