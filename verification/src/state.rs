//! The rules that repair persisted settings after loading: unknown backends
//! and view orders fall back to their defaults, out-of-range frame rates to
//! the standard rate.

use vstd::prelude::*;

use crate::models::{spec_sort_from_name, spec_sort_name, PlaylistSort};
use crate::text::{ascii_lower_seq, chars_vec, lower_equals, string_from_str};

verus! {

/// The visualizer frame rate used when the stored one is out of range.
pub const DEFAULT_VISUALIZER_FPS: u32 = 10;

/// The highest visualizer frame rate accepted.
pub const MAX_VISUALIZER_FPS: u32 = 60;

/// The stored playback backend: `fake` (any ASCII case) stays simulated,
/// every other value means the audio engine.
pub open spec fn spec_sanitized_backend(raw: Seq<char>) -> Seq<char> {
    if ascii_lower_seq(raw) == "fake"@ { "fake"@ } else { "audio"@ }
}

/// The stored playback backend, repaired: `fake` or `audio`.
pub fn sanitize_backend(raw: &str) -> (r: &'static str)
    ensures
        r@ == spec_sanitized_backend(raw@),
{
    let v = chars_vec(raw);
    if lower_equals(&v, "fake") {
        "fake"
    } else {
        "audio"
    }
}

/// The stored view order, repaired: a known order's name, else the default.
pub open spec fn spec_sanitized_sort(raw: Seq<char>) -> Seq<char> {
    match spec_sort_from_name(raw) {
        Some(s) => spec_sort_name(s),
        None => spec_sort_name(PlaylistSort::Playlist),
    }
}

/// The stored view order, repaired.
pub fn sanitize_playlist_sort(raw: &str) -> (r: &'static str)
    ensures
        r@ == spec_sanitized_sort(raw@),
{
    match PlaylistSort::parse(raw) {
        Some(s) => s.as_str(),
        None => PlaylistSort::default_sort().as_str(),
    }
}

/// The stored visualizer frame rate, repaired.
pub open spec fn spec_sanitized_fps(fps: u32) -> u32 {
    if fps == 0 || fps > 60 { 10 } else { fps }
}

/// The stored visualizer frame rate, repaired: 1 to 60 stays, anything else
/// becomes the standard rate.
pub fn sanitize_visualizer_fps(fps: u32) -> (r: u32)
    ensures
        r == spec_sanitized_fps(fps),
{
    if fps == 0 || fps > MAX_VISUALIZER_FPS {
        DEFAULT_VISUALIZER_FPS
    } else {
        fps
    }
}

/// The view order stored when none was saved.
pub fn default_playlist_sort() -> (r: String)
    ensures
        r@ == "playlist"@,
{
    string_from_str(PlaylistSort::Playlist.as_str())
}

/// The playback backend stored when none was saved.
pub fn default_backend() -> (r: String)
    ensures
        r@ == "audio"@,
{
    string_from_str("audio")
}

/// Repairing is idempotent: a repaired backend repairs to itself.
pub proof fn lemma_backend_sanitize_idempotent(raw: Seq<char>)
    ensures
        spec_sanitized_backend(spec_sanitized_backend(raw)) == spec_sanitized_backend(raw),
{
    reveal_strlit("fake");
    reveal_strlit("audio");
    assert(ascii_lower_seq("fake"@) =~= "fake"@);
    assert(ascii_lower_seq("audio"@) != "fake"@) by {
        assert(ascii_lower_seq("audio"@)[0] == 'a');
    }
}

/// Repairing is idempotent: a repaired view order repairs to itself.
pub proof fn lemma_sort_sanitize_idempotent(raw: Seq<char>)
    ensures
        spec_sanitized_sort(spec_sanitized_sort(raw)) == spec_sanitized_sort(raw),
{
    crate::models::lemma_sort_name_round_trip(match spec_sort_from_name(raw) {
        Some(s) => s,
        None => PlaylistSort::Playlist,
    });
}

/// The settings the repair rules read: playback backend, view order and
/// visualizer frame rate.
pub type StoredSettings = (Seq<char>, Seq<char>, u32);

/// Stored settings after repair.
pub open spec fn spec_sanitized_settings(s: StoredSettings) -> StoredSettings {
    (spec_sanitized_backend(s.0), spec_sanitized_sort(s.1), spec_sanitized_fps(s.2))
}

/// Repairing settings twice changes nothing beyond repairing them once, and
/// repaired settings are in range: the backend is `fake` or `audio`, the
/// view order a known one, the frame rate between 1 and 60.
pub proof fn lemma_settings_sanitize_idempotent(s: StoredSettings)
    ensures
        spec_sanitized_settings(spec_sanitized_settings(s)) == spec_sanitized_settings(s),
        spec_sanitized_settings(s).0 == "fake"@ || spec_sanitized_settings(s).0 == "audio"@,
        spec_sort_from_name(spec_sanitized_settings(s).1) is Some,
        1 <= spec_sanitized_settings(s).2 <= 60,
{
    lemma_backend_sanitize_idempotent(s.0);
    lemma_sort_sanitize_idempotent(s.1);
    let k = match spec_sort_from_name(s.1) {
        Some(x) => x,
        None => PlaylistSort::Playlist,
    };
    crate::models::lemma_sort_name_round_trip(k);
}

} // verus!
