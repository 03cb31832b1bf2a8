//! Playlist automation for a music-streaming service: authorization
//! lifecycle, paginated fetching, track selection, playlist identity and
//! batched playlist reconciliation, each stated and proved with Verus.

pub mod auth;
pub mod batch;
pub mod errors;
pub mod guards;
pub mod identity;
pub mod pager;
pub mod persistence;
pub mod reconcile;
pub mod selection;
pub mod text;
pub mod time_range;
pub mod urls;
pub mod year;
