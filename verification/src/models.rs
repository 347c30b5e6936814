//! Playlist and track domain types.

use std::path::PathBuf;
use vstd::prelude::*;

use crate::text::{ascii_lower_seq, chars_vec, lower_equals};

verus! {

/// `std::path::PathBuf`, carried through unchanged.
#[verifier::external_type_specification]
#[verifier::external_body]
pub struct ExPathBuf(PathBuf);

/// `PathBuf::clone` returns a path equal to the original.
pub assume_specification[ <PathBuf as Clone>::clone ](p: &PathBuf) -> (r: PathBuf)
    ensures
        r == *p,
;

/// Joined playlist row including optional cached metadata fields.
#[derive(Debug, Clone, PartialEq, Eq)]
pub struct PlaylistRow {
    pub item_id: i64,
    pub track_id: i64,
    pub pos_key: i64,
    pub path: PathBuf,
    pub title: Option<String>,
    pub artist: Option<String>,
    pub album: Option<String>,
    pub year: Option<i32>,
    pub duration_ms: Option<i64>,
    pub meta_valid: Option<bool>,
    pub meta_error: Option<String>,
}

/// Summary row used by the saved-playlist chooser.
#[derive(Debug, Clone, PartialEq, Eq)]
pub struct PlaylistSummary {
    pub id: i64,
    pub name: String,
    pub track_count: usize,
    pub updated_at: i64,
}

/// Joined editor-draft row; the path may not be a stored track yet.
#[derive(Debug, Clone, PartialEq, Eq)]
pub struct DraftRow {
    pub item_id: i64,
    pub pos_key: i64,
    pub path: PathBuf,
    pub title: Option<String>,
    pub artist: Option<String>,
    pub album: Option<String>,
    pub duration_ms: Option<i64>,
    pub missing: bool,
}

/// Minimal track record for metadata refresh workflows.
#[derive(Debug, Clone, PartialEq, Eq)]
pub struct TrackRecord {
    pub track_id: i64,
    pub path: PathBuf,
    pub mtime_ns: Option<i64>,
    pub size_bytes: Option<i64>,
}

/// Metadata payload persisted for a track (and its file stats).
#[derive(Debug, Clone, PartialEq, Eq)]
pub struct TrackMeta {
    pub title: Option<String>,
    pub artist: Option<String>,
    pub album: Option<String>,
    pub year: Option<i32>,
    pub duration_ms: Option<i64>,
    pub meta_valid: bool,
    pub meta_error: Option<String>,
    pub mtime_ns: Option<i64>,
    pub size_bytes: Option<i64>,
}

/// Read-only metadata snapshot used for change detection.
#[derive(Debug, Clone, PartialEq, Eq)]
pub struct TrackMetaSnapshot {
    pub track_id: i64,
    pub title: Option<String>,
    pub artist: Option<String>,
    pub album: Option<String>,
    pub year: Option<i32>,
    pub duration_ms: Option<i64>,
    pub meta_valid: bool,
    pub meta_error: Option<String>,
}

/// Direction for one-step playlist reordering.
#[derive(Debug, Clone, Copy, PartialEq, Eq, Structural)]
pub enum MoveDirection {
    Up,
    Down,
}

/// Non-destructive playlist view order; playback order is unaffected.
#[derive(Debug, Clone, Copy, PartialEq, Eq, Structural)]
pub enum PlaylistSort {
    Playlist,
    Track,
    Artist,
    Album,
}

/// The sort named by a (case-insensitive) word, if any.
pub open spec fn spec_sort_from_name(s: Seq<char>) -> Option<PlaylistSort> {
    let l = ascii_lower_seq(s);
    if l == "playlist"@ {
        Some(PlaylistSort::Playlist)
    } else if l == "track"@ || l == "title"@ {
        Some(PlaylistSort::Track)
    } else if l == "artist"@ {
        Some(PlaylistSort::Artist)
    } else if l == "album"@ {
        Some(PlaylistSort::Album)
    } else {
        None
    }
}

/// The stored name of a sort.
pub open spec fn spec_sort_name(s: PlaylistSort) -> Seq<char> {
    match s {
        PlaylistSort::Playlist => "playlist"@,
        PlaylistSort::Track => "track"@,
        PlaylistSort::Artist => "artist"@,
        PlaylistSort::Album => "album"@,
    }
}

/// The sort that follows `s` in the view cycle.
pub open spec fn spec_sort_next(s: PlaylistSort) -> PlaylistSort {
    match s {
        PlaylistSort::Playlist => PlaylistSort::Track,
        PlaylistSort::Track => PlaylistSort::Artist,
        PlaylistSort::Artist => PlaylistSort::Album,
        PlaylistSort::Album => PlaylistSort::Playlist,
    }
}

/// The direction named by a (case-insensitive) word, if any.
pub open spec fn spec_direction_from_name(s: Seq<char>) -> Option<MoveDirection> {
    let l = ascii_lower_seq(s);
    if l == "up"@ {
        Some(MoveDirection::Up)
    } else if l == "down"@ {
        Some(MoveDirection::Down)
    } else {
        None
    }
}

impl PlaylistSort {
    /// The sort named by `value`, ignoring ASCII case.
    pub fn parse(value: &str) -> (r: Option<Self>)
        ensures
            r == spec_sort_from_name(value@),
    {
        let v = chars_vec(value);
        if lower_equals(&v, "playlist") {
            Some(PlaylistSort::Playlist)
        } else if lower_equals(&v, "track") || lower_equals(&v, "title") {
            Some(PlaylistSort::Track)
        } else if lower_equals(&v, "artist") {
            Some(PlaylistSort::Artist)
        } else if lower_equals(&v, "album") {
            Some(PlaylistSort::Album)
        } else {
            None
        }
    }

    /// The stored name of the sort.
    pub fn as_str(self) -> (r: &'static str)
        ensures
            r@ == spec_sort_name(self),
    {
        match self {
            PlaylistSort::Playlist => "playlist",
            PlaylistSort::Track => "track",
            PlaylistSort::Artist => "artist",
            PlaylistSort::Album => "album",
        }
    }

    /// The label shown to users.
    pub fn display_name(self) -> (r: &'static str)
        ensures
            r@ == match self {
                PlaylistSort::Playlist => "Playlist"@,
                PlaylistSort::Track => "Track"@,
                PlaylistSort::Artist => "Artist"@,
                PlaylistSort::Album => "Album"@,
            },
    {
        match self {
            PlaylistSort::Playlist => "Playlist",
            PlaylistSort::Track => "Track",
            PlaylistSort::Artist => "Artist",
            PlaylistSort::Album => "Album",
        }
    }

    /// The next sort in the view cycle.
    pub fn cycle(self) -> (r: Self)
        ensures
            r == spec_sort_next(self),
    {
        match self {
            PlaylistSort::Playlist => PlaylistSort::Track,
            PlaylistSort::Track => PlaylistSort::Artist,
            PlaylistSort::Artist => PlaylistSort::Album,
            PlaylistSort::Album => PlaylistSort::Playlist,
        }
    }

    /// The default view order.
    pub fn default_sort() -> (r: Self)
        ensures
            r == PlaylistSort::Playlist,
    {
        PlaylistSort::Playlist
    }
}

impl MoveDirection {
    /// The direction named by `s`, ignoring ASCII case.
    pub fn parse(s: &str) -> (r: Option<Self>)
        ensures
            r == spec_direction_from_name(s@),
    {
        let v = chars_vec(s);
        if lower_equals(&v, "up") {
            Some(MoveDirection::Up)
        } else if lower_equals(&v, "down") {
            Some(MoveDirection::Down)
        } else {
            None
        }
    }
}

/// Every stored sort name reads back as the same sort.
pub proof fn lemma_sort_name_round_trip(s: PlaylistSort)
    ensures
        spec_sort_from_name(spec_sort_name(s)) == Some(s),
{
    reveal_strlit("playlist");
    reveal_strlit("track");
    reveal_strlit("title");
    reveal_strlit("artist");
    reveal_strlit("album");
    let n = spec_sort_name(s);
    assert(ascii_lower_seq(n) =~= n);
    assert("track"@.len() == 5 && "playlist"@.len() == 8 && "title"@.len() == 5);
    assert("artist"@.len() == 6 && "album"@.len() == 5);
    assert("track"@[1] != "title"@[1]);
    assert("album"@[0] != "track"@[0] && "album"@[0] != "title"@[0]);
    assert("artist"@ != "playlist"@);
}

/// Cycling the view order four times returns to the start, and every
/// order is reached from the default.
pub proof fn lemma_sort_cycle_period(s: PlaylistSort)
    ensures
        spec_sort_next(spec_sort_next(spec_sort_next(spec_sort_next(s)))) == s,
        s != spec_sort_next(s),
{
}

} // verus!
