//! The player's transport state and how each backend report or user action
//! changes it: loading and starting a track, pausing, stopping, seeking,
//! volume and mode changes, and the periodic position poll that detects a
//! track that ran out by itself.

use vstd::prelude::*;

use crate::transport::{clamp_volume, reached_natural_end, RepeatMode};

verus! {

/// What the playback backend reports.
#[derive(Debug, Clone, Copy, PartialEq, Eq, Structural)]
pub enum BackendStatus {
    Idle,
    Loading,
    Playing,
    Paused,
    Stopped,
    Error,
}

/// Track length assumed when the library does not know it.
pub const DEFAULT_DURATION_MS: u64 = 180_000;

/// Transport state shown to the user, plus the poll's anchor: the last
/// position the backend actually reported, and whether one was seen since
/// the track was loaded or stopped.
#[derive(Debug, Clone)]
pub struct TransportState {
    pub status: BackendStatus,
    pub playlist_id: Option<i64>,
    pub item_id: Option<i64>,
    pub position_ms: u64,
    pub duration_ms: u64,
    pub volume: u8,
    pub repeat_mode: RepeatMode,
    pub shuffle: bool,
    pub track_path: Option<String>,
    pub title: Option<String>,
    pub artist: Option<String>,
    pub album: Option<String>,
    pub error: Option<String>,
    pub stop_requested: bool,
    pub real_position_ms: u64,
    pub anchored: bool,
}

/// What a position poll found.
#[derive(Debug, Clone, Copy, PartialEq, Eq, Structural)]
pub enum PollOutcome {
    /// Nothing is loaded or playing; the report was ignored.
    Ignored,
    /// The track ran out by itself: the next one is due.
    EndReached,
    /// The position was updated; `reanchored` when the backend reported a new
    /// position, which restarts the clock the position is extrapolated by.
    Updated { reanchored: bool },
}

/// Whether a status counts as a loaded track for the poll.
pub open spec fn is_active(s: BackendStatus) -> bool {
    s == BackendStatus::Playing || s == BackendStatus::Paused || s == BackendStatus::Loading
}

/// The track length to use for a stored duration: the stored value when it
/// reads as a positive count, else the default.
pub open spec fn spec_track_duration(stored: Option<i64>, default: u64) -> u64 {
    match stored {
        Some(d) => if (d as u64) > 0 { d as u64 } else { default },
        None => default,
    }
}

/// The track length to use for a stored duration.
pub fn track_duration(stored: Option<i64>, default: u64) -> (r: u64)
    ensures
        r == spec_track_duration(stored, default),
{
    match stored {
        Some(d) => {
            let v = d as u64;
            if v > 0 { v } else { default }
        },
        None => default,
    }
}

/// The position shown while playing: the anchor moved on by the time since
/// it was taken, never before the anchor and never past a known duration.
pub open spec fn spec_interpolated(anchor: u64, elapsed: u64, duration: u64) -> u64 {
    let sum = if anchor + elapsed > u64::MAX { u64::MAX } else { (anchor + elapsed) as u64 };
    if duration > 0 && sum > duration { duration } else { sum }
}

/// Whether the poll of a report stops at the natural end of the track.
pub open spec fn poll_ends(st: TransportState, pos: u64, dur: u64, status: BackendStatus) -> bool {
    let duration = if dur > 0 { dur } else { st.duration_ms };
    status == BackendStatus::Stopped && !st.stop_requested && st.item_id is Some && duration > 0
        && pos >= (if duration >= 50 { duration - 50 } else { 0 })
}

/// Whether a report would make the player extrapolate from an anchor past
/// the track's end, which the player cannot do.
pub open spec fn poll_out_of_range(st: TransportState, pos: u64, dur: u64, status: BackendStatus) -> bool {
    let duration = if dur > 0 { dur } else { st.duration_ms };
    let anchor = if pos != st.real_position_ms || !st.anchored { pos } else { st.real_position_ms };
    is_active(st.status) && !poll_ends(st, pos, dur, status) && st.status == BackendStatus::Playing
        && duration > 0 && anchor > duration
}

/// The state and outcome of a position poll: backend position `pos`,
/// duration `dur` (zero when unknown) and status `status`, `elapsed` ms
/// after the current anchor was taken.
pub open spec fn spec_poll(st: TransportState, pos: u64, dur: u64, status: BackendStatus, elapsed: u64) -> (TransportState, PollOutcome) {
    if !is_active(st.status) {
        (st, PollOutcome::Ignored)
    } else {
        let duration = if dur > 0 { dur } else { st.duration_ms };
        if poll_ends(st, pos, dur, status) {
            (TransportState { duration_ms: duration, ..st }, PollOutcome::EndReached)
        } else {
            let reanchored = pos != st.real_position_ms || !st.anchored;
            let anchor = if reanchored { pos } else { st.real_position_ms };
            let since = if reanchored { 0 } else { elapsed };
            let position = if st.status == BackendStatus::Playing {
                spec_interpolated(anchor, since, duration)
            } else {
                anchor
            };
            (
                TransportState {
                    duration_ms: duration,
                    real_position_ms: anchor,
                    anchored: true,
                    position_ms: position,
                    status: if status != BackendStatus::Idle { status } else { st.status },
                    ..st
                },
                PollOutcome::Updated { reanchored },
            )
        }
    }
}

impl TransportState {
    /// The state before anything was played.
    pub fn new() -> (s: TransportState)
        ensures
            s.status == BackendStatus::Idle,
            s.playlist_id is None && s.item_id is None,
            s.position_ms == 0 && s.duration_ms == 0,
            s.volume == 100,
            s.repeat_mode == RepeatMode::Off,
            !s.shuffle,
            s.track_path is None && s.title is None && s.artist is None && s.album is None,
            s.error is None,
            !s.stop_requested,
            s.real_position_ms == 0 && !s.anchored,
    {
        TransportState {
            status: BackendStatus::Idle,
            playlist_id: None,
            item_id: None,
            position_ms: 0,
            duration_ms: 0,
            volume: 100,
            repeat_mode: RepeatMode::Off,
            shuffle: false,
            track_path: None,
            title: None,
            artist: None,
            album: None,
            error: None,
            stop_requested: false,
            real_position_ms: 0,
            anchored: false,
        }
    }

    /// A track is being loaded: it becomes the current item, its position
    /// restarts, and what was shown of the previous track is cleared.
    pub fn begin_play(&mut self, playlist_id: i64, item_id: i64)
        ensures
            *final(self) == (TransportState {
                status: BackendStatus::Loading,
                playlist_id: Some(playlist_id),
                item_id: Some(item_id),
                position_ms: 0,
                error: None,
                title: None,
                artist: None,
                album: None,
                track_path: None,
                stop_requested: false,
                real_position_ms: 0,
                anchored: false,
                ..*old(self)
            }),
    {
        self.stop_requested = false;
        self.real_position_ms = 0;
        self.anchored = false;
        self.status = BackendStatus::Loading;
        self.playlist_id = Some(playlist_id);
        self.item_id = Some(item_id);
        self.position_ms = 0;
        self.error = None;
        self.title = None;
        self.artist = None;
        self.album = None;
        self.track_path = None;
    }

    /// The loading track's row was found: its path, tags and length.
    pub fn track_found(&mut self, path: String, title: Option<String>, artist: Option<String>, album: Option<String>, duration_ms: u64)
        ensures
            *final(self) == (TransportState {
                track_path: Some(path),
                title,
                artist,
                album,
                duration_ms,
                ..*old(self)
            }),
    {
        self.track_path = Some(path);
        self.title = title;
        self.artist = artist;
        self.album = album;
        self.duration_ms = duration_ms;
    }

    /// The backend started the track.
    pub fn play_started(&mut self)
        ensures
            *final(self) == (TransportState { status: BackendStatus::Playing, position_ms: 0, ..*old(self) }),
    {
        self.status = BackendStatus::Playing;
        self.position_ms = 0;
    }

    /// The backend could not start the track.
    pub fn play_failed(&mut self, message: String)
        ensures
            *final(self) == (TransportState { status: BackendStatus::Error, error: Some(message), ..*old(self) }),
    {
        self.status = BackendStatus::Error;
        self.error = Some(message);
    }

    /// Whether pausing or resuming means anything now.
    pub fn can_toggle_pause(&self) -> (r: bool)
        ensures
            r == (self.status == BackendStatus::Playing || self.status == BackendStatus::Paused),
    {
        self.status == BackendStatus::Playing || self.status == BackendStatus::Paused
    }

    /// The backend paused a playing track or resumed a paused one.
    pub fn pause_toggled(&mut self)
        ensures
            *final(self) == (TransportState {
                status: if old(self).status == BackendStatus::Playing {
                    BackendStatus::Paused
                } else {
                    BackendStatus::Playing
                },
                ..*old(self)
            }),
    {
        self.status = if self.status == BackendStatus::Playing {
            BackendStatus::Paused
        } else {
            BackendStatus::Playing
        };
    }

    /// A stop is about to be asked of the backend.
    pub fn stop_asked(&mut self)
        ensures
            *final(self) == (TransportState { stop_requested: true, ..*old(self) }),
    {
        self.stop_requested = true;
    }

    /// The backend refused to stop.
    pub fn stop_failed(&mut self)
        ensures
            *final(self) == (TransportState { stop_requested: false, ..*old(self) }),
    {
        self.stop_requested = false;
    }

    /// The backend stopped: the position returns to the start.
    pub fn stopped(&mut self)
        ensures
            *final(self) == (TransportState {
                status: BackendStatus::Stopped,
                position_ms: 0,
                real_position_ms: 0,
                anchored: false,
                ..*old(self)
            }),
    {
        self.status = BackendStatus::Stopped;
        self.position_ms = 0;
        self.real_position_ms = 0;
        self.anchored = false;
    }

    /// Forgets the current track after a stop, so that an edited playlist
    /// keeps no stale item or path.
    pub fn clear_context(&mut self)
        ensures
            *final(self) == (TransportState {
                playlist_id: None,
                item_id: None,
                track_path: None,
                title: None,
                artist: None,
                album: None,
                duration_ms: 0,
                ..*old(self)
            }),
    {
        self.playlist_id = None;
        self.item_id = None;
        self.track_path = None;
        self.title = None;
        self.artist = None;
        self.album = None;
        self.duration_ms = 0;
    }

    /// The backend moved to `position_ms`, which becomes the new anchor.
    pub fn seeked(&mut self, position_ms: u64)
        ensures
            *final(self) == (TransportState {
                position_ms,
                real_position_ms: position_ms,
                anchored: true,
                ..*old(self)
            }),
    {
        self.position_ms = position_ms;
        self.real_position_ms = position_ms;
        self.anchored = true;
    }

    /// The volume the backend was set to, capped at 100.
    pub fn volume_set(&mut self, volume: u8)
        ensures
            *final(self) == (TransportState { volume: if volume > 100 { 100 } else { volume }, ..*old(self) }),
    {
        self.volume = clamp_volume(volume);
    }

    /// The next repeat mode.
    pub fn cycle_repeat(&mut self)
        ensures
            *final(self) == (TransportState { repeat_mode: crate::transport::spec_repeat_next(old(self).repeat_mode), ..*old(self) }),
    {
        self.repeat_mode = self.repeat_mode.cycle();
    }

    /// Shuffle on or off.
    pub fn toggle_shuffle(&mut self)
        ensures
            *final(self) == (TransportState { shuffle: !old(self).shuffle, ..*old(self) }),
    {
        self.shuffle = !self.shuffle;
    }

    /// The playlist and item that next/previous start from, when a track is
    /// current.
    pub fn context(&self) -> (r: Option<(i64, i64)>)
        ensures
            r == (match (self.playlist_id, self.item_id) {
                (Some(p), Some(i)) => Some((p, i)),
                _ => None,
            }),
    {
        match (self.playlist_id, self.item_id) {
            (Some(p), Some(i)) => Some((p, i)),
            _ => None,
        }
    }

    /// Takes a backend report: position `pos`, duration `dur` (zero when
    /// unknown) and status `status`, `elapsed_ms` after the current anchor was
    /// taken. Reports are ignored unless a track is loading, playing or
    /// paused. A known duration is kept; a stop that was not asked for
    /// within 50 ms of the end means the track ended. Otherwise a new
    /// position re-anchors the clock, a playing track's position is
    /// extrapolated from the anchor up to the duration, and the reported
    /// status (other than idle) is taken. `elapsed_ms` is media time: the
    /// wall-clock time since the anchor multiplied by the playback speed,
    /// which the caller applies.
    pub fn poll(&mut self, pos: u64, dur: u64, status: BackendStatus, elapsed_ms: u64) -> (r: PollOutcome)
        requires
            !poll_out_of_range(*old(self), pos, dur, status),
        ensures
            (*final(self), r) == spec_poll(*old(self), pos, dur, status, elapsed_ms),
    {
        if !(self.status == BackendStatus::Playing || self.status == BackendStatus::Paused || self.status
            == BackendStatus::Loading) {
            return PollOutcome::Ignored;
        }
        if dur > 0 {
            self.duration_ms = dur;
        }
        if reached_natural_end(status == BackendStatus::Stopped, self.stop_requested, self.item_id.is_some(), self.duration_ms, pos) {
            return PollOutcome::EndReached;
        }
        let reanchored = pos != self.real_position_ms || !self.anchored;
        if reanchored {
            self.real_position_ms = pos;
            self.anchored = true;
        }
        let since: u64 = if reanchored { 0 } else { elapsed_ms };
        self.position_ms = if self.status == BackendStatus::Playing {
            let sum: u64 = if self.real_position_ms > u64::MAX - since { u64::MAX } else { self.real_position_ms + since };
            if self.duration_ms > 0 && sum > self.duration_ms { self.duration_ms } else { sum }
        } else {
            self.real_position_ms
        };
        if status != BackendStatus::Idle {
            self.status = status;
        }
        PollOutcome::Updated { reanchored }
    }
}

/// A stop the user asked for is never taken for the end of the track: no
/// poll ends the track while a stop is pending.
pub proof fn lemma_requested_stop_never_ends_track(st: TransportState, pos: u64, dur: u64, status: BackendStatus, elapsed: u64)
    requires
        st.stop_requested,
    ensures
        spec_poll(st, pos, dur, status, elapsed).1 != PollOutcome::EndReached,
{
}

/// While a track plays, the position shown never runs past its known
/// duration.
pub proof fn lemma_playing_position_within_duration(st: TransportState, pos: u64, dur: u64, status: BackendStatus, elapsed: u64)
    requires
        st.status == BackendStatus::Playing,
        !poll_out_of_range(st, pos, dur, status),
    ensures
        ({
            let (after, outcome) = spec_poll(st, pos, dur, status, elapsed);
            outcome is Updated && after.duration_ms > 0 ==> after.position_ms <= after.duration_ms
        }),
{
}

/// Pausing and resuming again leaves the transport as it was.
pub proof fn lemma_pause_toggle_round_trip(st: TransportState)
    requires
        st.status == BackendStatus::Playing || st.status == BackendStatus::Paused,
    ensures
        ({
            let once = TransportState {
                status: if st.status == BackendStatus::Playing { BackendStatus::Paused } else { BackendStatus::Playing },
                ..st
            };
            let twice = TransportState {
                status: if once.status == BackendStatus::Playing { BackendStatus::Paused } else { BackendStatus::Playing },
                ..once
            };
            twice == st
        }),
{
}

/// A stopped transport ignores backend reports until a track is played
/// again, so a stop can never be followed by an automatic advance.
pub proof fn lemma_stopped_ignores_reports(st: TransportState, pos: u64, dur: u64, status: BackendStatus, elapsed: u64)
    requires
        st.status == BackendStatus::Stopped,
    ensures
        spec_poll(st, pos, dur, status, elapsed) == (st, PollOutcome::Ignored),
{
}

} // verus!
