//! Where a level reading for the visualizers came from.

use vstd::prelude::*;

use crate::text::{chars_vec, chars_eq};
use crate::timespan::TimeSpan;

verus! {

/// Source of the current level sample.
#[derive(Debug, Clone, Copy, PartialEq, Eq, Structural)]
pub enum LevelSource {
    Live,
    Envelope,
    Fallback,
    Missing,
}

impl LevelSource {
    /// The source's name.
    pub fn as_str(self) -> (r: &'static str)
        ensures
            r@ == match self {
                LevelSource::Live => "live"@,
                LevelSource::Envelope => "envelope"@,
                LevelSource::Fallback => "fallback"@,
                LevelSource::Missing => "missing"@,
            },
    {
        match self {
            LevelSource::Live => "live",
            LevelSource::Envelope => "envelope",
            LevelSource::Fallback => "fallback",
            LevelSource::Missing => "missing",
        }
    }
}


/// Short readiness label of a track's analysis cache: `analyzing` while
/// analysis runs, `ready` with all four products, `missing` with none,
/// `partial` otherwise.
pub fn readiness_label(analyzing: bool, envelope: bool, spectrum: bool, beat: bool, waveform: bool) -> (r: &'static str)
    ensures
        r@ == if analyzing {
            "analyzing"@
        } else if envelope && spectrum && beat && waveform {
            "ready"@
        } else if !envelope && !spectrum && !beat && !waveform {
            "missing"@
        } else {
            "partial"@
        },
{
    if analyzing {
        return "analyzing";
    }
    if envelope && spectrum && beat && waveform {
        "ready"
    } else if !envelope && !spectrum && !beat && !waveform {
        "missing"
    } else {
        "partial"
    }
}

/// Whether the cache size may be checked again: always the first time, then
/// only once `interval` has passed since the last check.
pub fn prune_check_due(since_last: Option<TimeSpan>, interval: TimeSpan) -> (r: bool)
    ensures
        r == match since_last {
            Some(t) => t.nanos() >= interval.nanos(),
            None => true,
        },
{
    match since_last {
        Some(t) => t.as_nanos() >= interval.as_nanos(),
        None => true,
    }
}

/// The position looked up in the envelope cache for a playback position:
/// the middle of the bucket, so the level leads slightly.
pub fn envelope_lookup_position(position_ms: u64, bucket_ms: u64) -> (r: u64)
    ensures
        r == if position_ms + bucket_ms / 2 > u64::MAX { u64::MAX as int } else { position_ms + bucket_ms / 2 },
{
    let half = bucket_ms / 2;
    if position_ms > u64::MAX - half {
        u64::MAX
    } else {
        position_ms + half
    }
}

/// Where the level shown for a transport status comes from: nothing unless
/// playing or paused, the cached envelope while paused, and while playing
/// the envelope when it has a reading, else the synthetic fallback.
pub open spec fn spec_level_source(status: Seq<char>, envelope_found: bool) -> LevelSource {
    if status != "playing"@ && status != "paused"@ {
        LevelSource::Missing
    } else if status == "paused"@ {
        LevelSource::Envelope
    } else if envelope_found {
        LevelSource::Envelope
    } else {
        LevelSource::Fallback
    }
}

/// Where the level shown for a transport status comes from.
pub fn level_source(status: &str, envelope_found: bool) -> (r: LevelSource)
    ensures
        r == spec_level_source(status@, envelope_found),
{
    let s = chars_vec(status);
    let playing = chars_eq(&s, &chars_vec("playing"));
    let paused = chars_eq(&s, &chars_vec("paused"));
    if !playing && !paused {
        LevelSource::Missing
    } else if paused {
        LevelSource::Envelope
    } else if envelope_found {
        LevelSource::Envelope
    } else {
        LevelSource::Fallback
    }
}

} // verus!
