//! Verified core of a terminal music player: PCM arithmetic, the helper
//! wire protocol, playlist ordering, transport decisions and text safety.

pub mod about;
pub mod analysis;
pub mod bench;
pub mod cache;
pub mod capture;
pub mod compat;
pub mod diagnostic;
pub mod discovery;
pub mod fmt;
pub mod helper;
pub mod helper_cli;
pub mod levels;
pub mod listing;
pub mod manifest;
pub mod models;
pub mod navigation;
pub mod ordering;
pub mod pathnorm;
pub mod paths;
pub mod pcm;
pub mod pcm_stream;
pub mod player;
pub mod playlist;
pub mod resample;
pub mod protocol;
pub mod schema;
pub mod seek_trim;
pub mod sniff;
pub mod state;
pub mod terminal;
pub mod text;
pub mod transport;
pub mod timespan;
