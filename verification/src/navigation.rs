//! Decisions of the interactive session: footer status lifetime, cursor
//! movement in the playlist, the folder browser and the playlist editor, and
//! the checks made before a staged playlist is saved or renamed.

use std::path::{Path, PathBuf};
use vstd::prelude::*;
use vstd::utf8::{decode_utf8, valid_utf8};

use crate::diagnostic::{trim_chars, trim_seq};
use crate::discovery::{buf_parts, file_name_bytes, path_from, path_parts, text_parts, PathPart};
use crate::fmt::{decimal, decimal_chars, extend_chars};
use crate::text::{ascii_lower_seq, chars_vec, concat_str, lower_equals, push_char, string_from_chars, string_from_str};
use crate::timespan::TimeSpan;

verus! {

/// Seconds an informational or warning status stays in the footer.
pub const STATUS_TTL_SECS: u64 = 4;

/// Rows moved by a page step in the playlist and the editor.
pub const PAGE_ROWS: usize = 10;

/// Severity of the footer status message. Only `Error` outlives the status
/// lifetime; it stays until dismissed.
#[derive(Debug, Clone, Copy, PartialEq, Eq, Structural)]
pub enum StatusLevel {
    Info,
    Warn,
    Error,
}

/// The pane of the playlist editor that has the keyboard.
#[derive(Debug, Clone, Copy, PartialEq, Eq, Structural)]
pub enum EditorFocus {
    Files,
    Playlist,
}

/// The modal shown over the playlist editor, if any.
#[derive(Debug, Clone, Copy, PartialEq, Eq, Structural)]
pub enum EditorOverlay {
    Closed,
    Help,
    SaveName,
    Load,
    Rename,
    DeleteConfirm,
    PartialScanConfirm,
    DiscardConfirm,
}

/// One entry of a directory listing in the folder browser.
#[derive(Debug, Clone)]
pub struct FsEntry {
    pub name: String,
    pub path: PathBuf,
    pub is_dir: bool,
}

/// Session failures.
#[derive(Debug)]
pub enum RuntimeError {
    Io(String),
    Db(String),
    Playback(String),
    Message(String),
}

impl RuntimeError {
    /// The error's user-facing text.
    pub fn message(&self) -> (r: String)
        ensures
            r@ == match self {
                RuntimeError::Io(m) => "io: "@ + m@,
                RuntimeError::Db(m) => "db: "@ + m@,
                RuntimeError::Playback(m) => "playback: "@ + m@,
                RuntimeError::Message(m) => m@,
            },
    {
        match self {
            RuntimeError::Io(m) => concat_str("io: ", m.as_str()),
            RuntimeError::Db(m) => concat_str("db: ", m.as_str()),
            RuntimeError::Playback(m) => concat_str("playback: ", m.as_str()),
            RuntimeError::Message(m) => string_from_str(m.as_str()),
        }
    }
}

/// Failures of a control command.
#[derive(Debug)]
pub enum ControlError {
    Message(String),
}

impl ControlError {
    /// The error's user-facing text.
    pub fn message(&self) -> (r: String)
        ensures
            r@ == match self {
                ControlError::Message(m) => m@,
            },
    {
        match self {
            ControlError::Message(m) => string_from_str(m.as_str()),
        }
    }
}

/// Failures while persisting session state.
#[derive(Debug)]
pub enum StateError {
    Io(String),
    Serde(String),
}

impl StateError {
    /// The error's user-facing text.
    pub fn message(&self) -> (r: String)
        ensures
            r@ == match self {
                StateError::Io(m) => "io: "@ + m@,
                StateError::Serde(m) => "serde: "@ + m@,
            },
    {
        match self {
            StateError::Io(m) => concat_str("io: ", m.as_str()),
            StateError::Serde(m) => concat_str("serde: ", m.as_str()),
        }
    }
}

impl EditorFocus {
    /// The other pane.
    pub fn toggled(self) -> (r: EditorFocus)
        ensures
            r != self,
    {
        match self {
            EditorFocus::Files => EditorFocus::Playlist,
            EditorFocus::Playlist => EditorFocus::Files,
        }
    }
}

/// The footer status line: its text and severity.
#[derive(Debug)]
pub struct StatusLine {
    pub message: Option<String>,
    pub level: StatusLevel,
}

/// Whether a status of `level` shown for `elapsed_nanos` is due to be cleared.
pub open spec fn spec_status_expired(level: StatusLevel, elapsed_nanos: nat) -> bool {
    level != StatusLevel::Error && elapsed_nanos >= STATUS_TTL_SECS * 1_000_000_000
}

/// Whether a status of `level`, shown for `elapsed`, is due to be cleared.
pub fn status_expired(level: StatusLevel, elapsed: TimeSpan) -> (r: bool)
    ensures
        r == spec_status_expired(level, elapsed.nanos()),
{
    if level == StatusLevel::Error {
        return false;
    }
    elapsed.as_nanos() >= (STATUS_TTL_SECS as u128) * 1_000_000_000
}

impl StatusLine {
    /// An empty status line.
    pub fn new() -> (s: StatusLine)
        ensures
            s.message is None,
            s.level == StatusLevel::Info,
    {
        StatusLine { message: None, level: StatusLevel::Info }
    }

    /// Shows `msg` at `level`.
    pub fn set_with_level(&mut self, msg: String, level: StatusLevel)
        ensures
            final(self).message == Some(msg),
            final(self).level == level,
    {
        self.message = Some(msg);
        self.level = level;
    }

    /// Shows an informational message that clears itself.
    pub fn set_status(&mut self, msg: String)
        ensures
            final(self).message == Some(msg),
            final(self).level == StatusLevel::Info,
    {
        self.set_with_level(msg, StatusLevel::Info);
    }

    /// Shows a warning that clears itself like an informational message.
    pub fn set_warning(&mut self, msg: String)
        ensures
            final(self).message == Some(msg),
            final(self).level == StatusLevel::Warn,
    {
        self.set_with_level(msg, StatusLevel::Warn);
    }

    /// Shows an error that stays until dismissed.
    pub fn set_error(&mut self, msg: String)
        ensures
            final(self).message == Some(msg),
            final(self).level == StatusLevel::Error,
    {
        self.set_with_level(msg, StatusLevel::Error);
    }

    /// Dismisses whatever is shown.
    pub fn clear_status(&mut self)
        ensures
            final(self).message is None,
            final(self).level == StatusLevel::Info,
    {
        self.message = None;
        self.level = StatusLevel::Info;
    }

    /// Clears the status when it has been shown for `elapsed` (none when no
    /// time was recorded) and its severity lets it expire.
    pub fn expire(&mut self, elapsed: Option<TimeSpan>)
        ensures
            match elapsed {
                Some(t) => if spec_status_expired(old(self).level, t.nanos()) {
                    final(self).message is None && final(self).level == StatusLevel::Info
                } else {
                    *final(self) == *old(self)
                },
                None => *final(self) == *old(self),
            },
    {
        if let Some(t) = elapsed {
            if status_expired(self.level, t) {
                self.clear_status();
            }
        }
    }
}

/// An error shown in the footer outlives any display time: expiring never
/// clears it.
pub proof fn lemma_error_status_persists(level: StatusLevel, elapsed_nanos: nat)
    requires
        level == StatusLevel::Error,
    ensures
        !spec_status_expired(level, elapsed_nanos),
{
}

/// Informational and warning messages expire exactly when the status lifetime
/// has passed.
pub proof fn lemma_transient_status_expires(level: StatusLevel, elapsed_nanos: nat)
    requires
        level != StatusLevel::Error,
    ensures
        spec_status_expired(level, elapsed_nanos) <==> elapsed_nanos >= 4_000_000_000,
{
}

/// The playlist cursor one row up, stopping at the top.
pub open spec fn spec_cursor_up(cursor: nat, rows: nat) -> nat {
    if cursor >= rows { (cursor - rows) as nat } else { 0 }
}

/// The playlist cursor one row down, when a row exists below it.
pub open spec fn spec_cursor_down(cursor: nat, count: nat) -> nat {
    if count > 0 && cursor + 1 < count { cursor + 1 } else { cursor }
}

/// `cursor + rows`, clamped to the last row; unchanged on an empty list.
pub open spec fn spec_clamped_down(cursor: nat, rows: nat, count: nat) -> nat {
    if count == 0 {
        cursor
    } else if cursor + rows <= count - 1 {
        cursor + rows
    } else {
        (count - 1) as nat
    }
}

/// `cursor - rows`, stopping at zero.
pub fn cursor_up(cursor: usize, rows: usize) -> (r: usize)
    ensures
        r == spec_cursor_up(cursor as nat, rows as nat),
{
    if cursor >= rows {
        cursor - rows
    } else {
        0
    }
}

/// One row down in the playlist, when there is a row below the cursor.
pub fn cursor_down(cursor: usize, count: usize) -> (r: usize)
    ensures
        r == spec_cursor_down(cursor as nat, count as nat),
{
    if count > 0 && cursor < count - 1 {
        cursor + 1
    } else {
        cursor
    }
}

/// `rows` down, clamped to the last row of `count`; unchanged when empty.
pub fn clamped_down(cursor: usize, rows: usize, count: usize) -> (r: usize)
    ensures
        r == spec_clamped_down(cursor as nat, rows as nat, count as nat),
        count > 0 ==> r < count,
{
    if count == 0 {
        cursor
    } else if cursor <= count - 1 && rows <= count - 1 - cursor {
        cursor + rows
    } else {
        count - 1
    }
}

/// What a request to play does.
#[derive(Debug, Clone, Copy, PartialEq, Eq, Structural)]
pub enum PlayRequest {
    /// Pause or resume the track that is loaded.
    TogglePause,
    /// Start the item under the cursor.
    PlayItem(i64),
    /// Nothing to play: the playlist is empty.
    EmptyPlaylist,
    /// Nothing to play: no row is under the cursor.
    NoSelection,
}

/// What a play key does: the play/pause key (`toggle`) pauses or resumes a
/// loaded track; otherwise the item under the cursor starts, when there is
/// one.
pub fn play_request(toggle: bool, track_loaded: bool, count: usize, cursor_item: Option<i64>) -> (r: PlayRequest)
    ensures
        r == (if toggle && track_loaded {
            PlayRequest::TogglePause
        } else if count == 0 {
            PlayRequest::EmptyPlaylist
        } else {
            match cursor_item {
                Some(id) => PlayRequest::PlayItem(id),
                None => PlayRequest::NoSelection,
            }
        }),
{
    if toggle && track_loaded {
        PlayRequest::TogglePause
    } else if count == 0 {
        PlayRequest::EmptyPlaylist
    } else {
        match cursor_item {
            Some(id) => PlayRequest::PlayItem(id),
            None => PlayRequest::NoSelection,
        }
    }
}

/// The footer message of a play request that plays nothing.
pub fn play_request_message(r: PlayRequest) -> (m: Option<&'static str>)
    ensures
        r == PlayRequest::EmptyPlaylist ==> (m matches Some(t) && t@ == "Playlist empty — press a to add music"@),
        r == PlayRequest::NoSelection ==> (m matches Some(t) && t@ == "No track selected"@),
        (r is TogglePause || r is PlayItem) ==> m is None,
{
    match r {
        PlayRequest::EmptyPlaylist => Some("Playlist empty — press a to add music"),
        PlayRequest::NoSelection => Some("No track selected"),
        _ => None,
    }
}

/// What the clear-playlist key does: ask for confirmation, unless there is
/// nothing to clear. Returns whether a confirmation is now pending, and the
/// footer message.
pub fn clear_request(count: usize) -> (r: (bool, &'static str))
    ensures
        count == 0 ==> !r.0 && r.1@ == "Playlist already empty"@,
        count > 0 ==> r.0 && r.1@ == "Clear playlist? y=yes n=no"@,
{
    if count == 0 {
        (false, "Playlist already empty")
    } else {
        (true, "Clear playlist? y=yes n=no")
    }
}

/// How a yes/no answer to the clear confirmation ends.
#[derive(Debug, Clone, Copy, PartialEq, Eq, Structural)]
pub enum ClearAnswer {
    /// Clear the playlist.
    Clear,
    /// The pending clear was refused.
    Cancelled,
    /// No clear was pending.
    Ignored,
}

/// The outcome of a yes/no answer: the playlist is cleared only when a
/// clear was pending and the answer is yes. No confirmation is pending
/// afterwards, whatever the answer.
pub fn clear_answer(yes: bool, pending: bool) -> (r: ClearAnswer)
    ensures
        r == ClearAnswer::Clear <==> yes && pending,
        r == ClearAnswer::Cancelled <==> !yes && pending,
        r == ClearAnswer::Ignored <==> !pending,
{
    if yes && pending {
        ClearAnswer::Clear
    } else if pending {
        ClearAnswer::Cancelled
    } else {
        ClearAnswer::Ignored
    }
}

/// The playlist cursor after the row under it was removed, with `count` rows
/// left.
pub open spec fn spec_cursor_after_removal(cursor: nat, count: nat) -> nat {
    if count == 0 {
        0
    } else if cursor >= count {
        (count - 1) as nat
    } else {
        cursor
    }
}

/// The playlist cursor after the row under it was removed, with `count` rows
/// left.
pub fn cursor_after_removal(cursor: usize, count: usize) -> (r: usize)
    ensures
        r == spec_cursor_after_removal(cursor as nat, count as nat),
        count > 0 ==> r < count,
        count == 0 ==> r == 0,
{
    if count == 0 {
        0
    } else if cursor >= count {
        count - 1
    } else {
        cursor
    }
}

/// The cursor after moving the row under it one place: it follows the row.
pub fn cursor_after_item_move(cursor: usize, up: bool, count: usize) -> (r: usize)
    ensures
        up ==> r == spec_cursor_up(cursor as nat, 1),
        !up ==> r == spec_clamped_down(cursor as nat, 1, count as nat),
{
    if up {
        cursor_up(cursor, 1)
    } else {
        clamped_down(cursor, 1, count)
    }
}

/// The last index of a list of `len` entries, zero when empty.
pub open spec fn last_index(len: nat) -> nat {
    if len == 0 { 0 } else { (len - 1) as nat }
}

/// A cursor moved by `delta`: down is clamped to the last index, up stops at
/// zero.
pub open spec fn spec_step(cursor: nat, delta: int, len: nat) -> nat {
    if delta < 0 {
        if cursor + delta >= 0 { (cursor + delta) as nat } else { 0 }
    } else {
        if cursor + delta <= last_index(len) { (cursor + delta) as nat } else { last_index(len) }
    }
}

/// `index` clamped to the last index of a list of `len` entries.
pub open spec fn spec_clamp_index(index: nat, len: nat) -> nat {
    if index <= last_index(len) { index } else { last_index(len) }
}

/// `index` clamped to the last index of a list of `len` entries.
pub fn clamp_index(index: usize, len: usize) -> (r: usize)
    ensures
        r == spec_clamp_index(index as nat, len as nat),
{
    let last = if len == 0 { 0 } else { len - 1 };
    if index <= last {
        index
    } else {
        last
    }
}

/// A cursor moved by `delta`: down is clamped to the last index, up stops at
/// zero.
pub fn step_cursor(cursor: usize, delta: isize, len: usize) -> (r: usize)
    ensures
        r == spec_step(cursor as nat, delta as int, len as nat),
{
    let last = if len == 0 { 0 } else { len - 1 };
    if delta < 0 {
        let magnitude: u128 = (0i128 - (delta as i128)) as u128;
        if (cursor as u128) >= magnitude {
            ((cursor as u128) - magnitude) as usize
        } else {
            0
        }
    } else {
        let forward: u128 = delta as u128;
        if (cursor as u128) + forward <= (last as u128) {
            ((cursor as u128) + forward) as usize
        } else {
            last
        }
    }
}

/// The editor cursor after a move of `delta` in a pane of `len` entries: the
/// step, then clamped into the pane.
pub fn editor_cursor_after_move(cursor: usize, delta: isize, len: usize) -> (r: usize)
    ensures
        r == spec_clamp_index(spec_step(cursor as nat, delta as int, len as nat), len as nat),
        r <= last_index(len as nat),
{
    clamp_index(step_cursor(cursor, delta, len), len)
}

/// The cursor of the load list after a move of `delta` over `len` saved
/// playlists; zero when there are none.
pub fn load_cursor_after_move(cursor: usize, delta: isize, len: usize) -> (r: usize)
    ensures
        len == 0 ==> r == 0,
        len > 0 ==> r == spec_step(cursor as nat, delta as int, len as nat),
{
    if len == 0 {
        0
    } else {
        step_cursor(cursor, delta, len)
    }
}

/// Where a file staged from the browser goes in a draft of `count` rows:
/// at the cursor when inserting, after it when appending.
pub open spec fn spec_insert_position(insert: bool, cursor: nat, count: nat) -> nat {
    let wanted = if insert { cursor } else { cursor + 1 };
    if wanted <= count { wanted } else { count }
}

/// Where a file staged from the browser goes in a draft of `count` rows.
pub fn editor_insert_position(insert: bool, cursor: usize, count: usize) -> (r: usize)
    ensures
        r == spec_insert_position(insert, cursor as nat, count as nat),
        r <= count,
{
    let wanted: u128 = if insert { cursor as u128 } else { (cursor as u128) + 1 };
    if wanted <= count as u128 {
        wanted as usize
    } else {
        count
    }
}

/// The editor cursor after the row under it moved up or down (`moved` tells
/// whether the draft changed), in a draft of `count` rows.
pub fn editor_cursor_after_reorder(cursor: usize, up: bool, moved: bool, count: usize) -> (r: usize)
    ensures
        !moved ==> r == cursor,
        moved && up ==> r == spec_cursor_up(cursor as nat, 1),
        moved && !up ==> r == spec_clamp_index(cursor as nat + 1, count as nat),
{
    if !moved {
        cursor
    } else if up {
        cursor_up(cursor, 1)
    } else if cursor < usize::MAX {
        clamp_index(cursor + 1, count)
    } else {
        clamp_index(cursor, count)
    }
}

/// The first position of `id` in the filtered rows, if it is there.
pub fn position_in(ids: &Vec<i64>, id: i64) -> (r: Option<usize>)
    ensures
        match r {
            Some(i) => i < ids.len() && ids@[i as int] == id
                && forall|j: int| 0 <= j < i ==> ids@[j] != id,
            None => !ids@.contains(id),
        },
{
    let mut i: usize = 0;
    while i < ids.len()
        invariant
            i <= ids.len(),
            forall|j: int| 0 <= j < i ==> ids@[j] != id,
        decreases ids.len() - i,
    {
        if ids[i] == id {
            return Some(i);
        }
        i += 1;
    }
    None
}

/// The four cache flags of the now-playing track as a compact label
/// (upper case when present), or `analyzing` while analysis runs.
pub open spec fn spec_analysis_label(analyzing: bool, envelope: bool, spectrum: bool, beat: bool, waveform: bool) -> Seq<char> {
    if analyzing {
        "analyzing"@
    } else {
        seq![
            if envelope { 'E' } else { 'e' },
            if spectrum { 'S' } else { 's' },
            if beat { 'B' } else { 'b' },
            if waveform { 'W' } else { 'w' },
        ]
    }
}

/// The cache flags of the now-playing track as a compact label.
pub fn analysis_label(analyzing: bool, envelope: bool, spectrum: bool, beat: bool, waveform: bool) -> (r: String)
    ensures
        r@ == spec_analysis_label(analyzing, envelope, spectrum, beat, waveform),
{
    if analyzing {
        return string_from_str("analyzing");
    }
    let mut s = String::new();
    push_char(&mut s, if envelope { 'E' } else { 'e' });
    push_char(&mut s, if spectrum { 'S' } else { 's' });
    push_char(&mut s, if beat { 'B' } else { 'b' });
    push_char(&mut s, if waveform { 'W' } else { 'w' });
    assert(s@ =~= spec_analysis_label(analyzing, envelope, spectrum, beat, waveform));
    s
}

/// The name offered when the save prompt opens: the saved playlist's own name
/// when re-saving it, else what was typed before.
pub fn save_prompt_name(save_as: bool, saved_id: Option<i64>, saved_name: &Option<String>, playlist_id: i64, pending: &String) -> (r: String)
    ensures
        (saved_id == Some(playlist_id) && !save_as) ==> r@ == match saved_name {
            Some(n) => n@,
            None => Seq::<char>::empty(),
        },
        !(saved_id == Some(playlist_id) && !save_as) ==> r@ == pending@,
{
    if saved_id == Some(playlist_id) && !save_as {
        match saved_name {
            Some(n) => string_from_str(n.as_str()),
            None => String::new(),
        }
    } else {
        string_from_str(pending.as_str())
    }
}

/// Why a staged playlist cannot be saved under `name`, or the trimmed name
/// and the playlist it overwrites (none for a new one).
pub open spec fn spec_commit_name(name: Seq<char>, save_as: bool, saved_id: Option<i64>, playlist_id: i64) -> Result<(Seq<char>, Option<i64>), Seq<char>> {
    let trimmed = trim_seq(name);
    let target = if save_as { None } else { saved_id };
    if trimmed.len() == 0 {
        Err("Playlist name cannot be empty"@)
    } else if target == Some(playlist_id) {
        Err("The active Default playlist can only be changed with Apply"@)
    } else {
        Ok((trimmed, target))
    }
}

/// Checks a name typed for saving the staged playlist: the trimmed name and
/// the saved playlist it replaces, or why it is refused.
pub fn commit_name_target(name: &str, save_as: bool, saved_id: Option<i64>, playlist_id: i64) -> (r: Result<(String, Option<i64>), String>)
    ensures
        match (r, spec_commit_name(name@, save_as, saved_id, playlist_id)) {
            (Ok((n, t)), Ok((sn, st))) => n@ == sn && t == st,
            (Err(e), Err(se)) => e@ == se,
            _ => false,
        },
{
    let chars = chars_vec(name);
    let trimmed = trim_chars(&chars);
    let target = if save_as { None } else { saved_id };
    if trimmed.len() == 0 {
        return Err(string_from_str("Playlist name cannot be empty"));
    }
    if target == Some(playlist_id) {
        return Err(string_from_str("The active Default playlist can only be changed with Apply"));
    }
    Ok((string_from_chars(&trimmed), target))
}

/// Why the saved playlist cannot be renamed to `name`, or its id and the
/// trimmed name.
pub open spec fn spec_rename(name: Seq<char>, saved_id: Option<i64>, playlist_id: i64) -> Result<(i64, Seq<char>), Seq<char>> {
    match saved_id {
        None => Err("no saved playlist selected"@),
        Some(id) => if id == playlist_id {
            Err("The active Default playlist cannot be renamed"@)
        } else if trim_seq(name).len() == 0 {
            Err("Playlist name cannot be empty"@)
        } else {
            Ok((id, trim_seq(name)))
        },
    }
}

/// Checks a rename of the saved playlist: its id and the trimmed name, or why
/// it is refused.
pub fn rename_target(name: &str, saved_id: Option<i64>, playlist_id: i64) -> (r: Result<(i64, String), String>)
    ensures
        match (r, spec_rename(name@, saved_id, playlist_id)) {
            (Ok((i, n)), Ok((si, sn))) => i == si && n@ == sn,
            (Err(e), Err(se)) => e@ == se,
            _ => false,
        },
{
    let id = match saved_id {
        None => {
            return Err(string_from_str("no saved playlist selected"));
        },
        Some(id) => id,
    };
    if id == playlist_id {
        return Err(string_from_str("The active Default playlist cannot be renamed"));
    }
    let chars = chars_vec(name);
    let trimmed = trim_chars(&chars);
    if trimmed.len() == 0 {
        return Err(string_from_str("Playlist name cannot be empty"));
    }
    Ok((id, string_from_chars(&trimmed)))
}

/// How locating the playing item proceeds under the find filter.
#[derive(Debug, Clone, Copy, PartialEq, Eq, Structural)]
pub enum LocateStep {
    /// The item is among the filtered rows, at this index.
    Found(usize),
    /// The item is outside the filter: clear the filter, then look it up in
    /// the whole playlist.
    ClearFind,
    /// No filter is active: look the item up in the whole playlist.
    Unfiltered,
}

/// The first step of locating the playing item `id`: its first index among
/// the find results when it is there; when a filter is active but does not
/// hold it, the filter is cleared; with no filter, the whole playlist is
/// searched.
pub fn locate_step(find_ids: &Option<Vec<i64>>, id: i64) -> (r: LocateStep)
    ensures
        match find_ids {
            Some(ids) => if ids@.contains(id) {
                r matches LocateStep::Found(i) && i < ids@.len() && ids@[i as int] == id
                    && forall|j: int| 0 <= j < i ==> ids@[j] != id
            } else {
                r is ClearFind
            },
            None => r is Unfiltered,
        },
{
    match find_ids {
        Some(ids) => match position_in(ids, id) {
            Some(i) => LocateStep::Found(i),
            None => LocateStep::ClearFind,
        },
        None => LocateStep::Unfiltered,
    }
}

/// Letters that can name a drive: `A` to `Z`.
pub const DRIVE_LETTERS: usize = 26;

/// The browse name of the drive with letter number `i` (0 for `A`): the
/// letter, `:` and `\`.
pub open spec fn drive_name(i: int) -> Seq<char> {
    seq![((65 + i) as u32) as char, ':', '\\']
}

/// The names of the mounted drives among the first `n` letters, in letter
/// order.
pub open spec fn drive_names(mounted: Seq<bool>, n: int) -> Seq<Seq<char>>
    decreases n,
{
    if n <= 0 {
        Seq::empty()
    } else if mounted[n - 1] {
        drive_names(mounted, n - 1).push(drive_name(n - 1))
    } else {
        drive_names(mounted, n - 1)
    }
}

proof fn lemma_drive_names_ordered(mounted: Seq<bool>, n: int)
    requires
        0 <= n <= 26,
        n <= mounted.len(),
    ensures
        forall|j: int| 0 <= j < drive_names(mounted, n).len() ==> (#[trigger] drive_names(mounted, n)[j]).len() == 3
            && 65 <= drive_names(mounted, n)[j][0] as u32 && (drive_names(mounted, n)[j][0] as u32) < 65 + n,
        forall|j: int, k: int| 0 <= j < k < drive_names(mounted, n).len() ==> (#[trigger] drive_names(mounted, n)[j][0]
            as u32) < (#[trigger] drive_names(mounted, n)[k][0] as u32),
    decreases n,
{
    if n > 0 {
        lemma_drive_names_ordered(mounted, n - 1);
        let prev = drive_names(mounted, n - 1);
        let cur = drive_names(mounted, n);
        if mounted[n - 1] {
            let d = drive_name(n - 1);
            assert(d[0] as u32 == 65 + n - 1);
            assert forall|j: int| 0 <= j < cur.len() implies (#[trigger] cur[j]).len() == 3 && 65 <= cur[j][0] as u32
                && (cur[j][0] as u32) < 65 + n by {
                if j < prev.len() {
                    assert(cur[j] == prev[j]);
                }
            }
            assert forall|j: int, k: int| 0 <= j < k < cur.len() implies (#[trigger] cur[j][0] as u32) < (#[trigger] cur[k][0]
                as u32) by {
                assert(cur[j] == prev[j]);
                if k < prev.len() {
                    assert(cur[k] == prev[k]);
                }
            }
        }
    }
}

/// The letters that are looked at: the first 26 of `mounted`.
pub open spec fn drive_count(mounted: Seq<bool>) -> int {
    if mounted.len() < 26 { mounted.len() as int } else { 26 }
}

/// Drive roots offered above a filesystem root, as directory entries named
/// like `C:\`: one per mounted drive letter, in letter order, where
/// `mounted[i]` tells whether the drive with letter number `i` (0 for `A`)
/// is mounted. A platform without drive letters mounts none.
pub fn drive_list(mounted: &Vec<bool>) -> (v: Vec<FsEntry>)
    ensures
        v@.len() == drive_names(mounted@, drive_count(mounted@)).len(),
        forall|j: int| 0 <= j < v@.len() ==> (#[trigger] v@[j]).name@ == drive_names(mounted@, drive_count(mounted@))[j]
            && v@[j].is_dir && buf_parts(v@[j].path) == text_parts(v@[j].name@),
        forall|j: int, k: int| 0 <= j < k < v@.len() ==> ((#[trigger] v@[j]).name@[0] as u32) < ((#[trigger] v@[k]).name@[0]
            as u32),
{
    proof {
        lemma_drive_names_ordered(mounted@, drive_count(mounted@));
    }
    let n: usize = if mounted.len() < DRIVE_LETTERS { mounted.len() } else { DRIVE_LETTERS };
    let mut out: Vec<FsEntry> = Vec::new();
    let mut i: usize = 0;
    while i < n
        invariant
            i <= n,
            n == drive_count(mounted@),
            n <= 26,
            n <= mounted@.len(),
            out@.len() == drive_names(mounted@, i as int).len(),
            forall|j: int| 0 <= j < out@.len() ==> (#[trigger] out@[j]).name@ == drive_names(mounted@, i as int)[j]
                && out@[j].is_dir && buf_parts(out@[j].path) == text_parts(out@[j].name@),
        decreases n - i,
    {
        if mounted[i] {
            let letter: char = (65u8 + i as u8) as char;
            let mut name = String::new();
            push_char(&mut name, letter);
            push_char(&mut name, ':');
            push_char(&mut name, '\\');
            assert(name@ =~= drive_name(i as int));
            let path = path_from(name.as_str());
            let ghost before = out@;
            out.push(FsEntry { name, path, is_dir: true });
            assert forall|j: int| 0 <= j < out@.len() implies (#[trigger] out@[j]).name@ == drive_names(mounted@, i + 1)[j]
                && out@[j].is_dir && buf_parts(out@[j].path) == text_parts(out@[j].name@) by {
                if j < before.len() {
                    assert(out@[j] == before[j]);
                }
            }
        }
        i += 1;
    }
    out
}


/// File extensions (lower case) of the media formats the player accepts.
pub open spec fn media_extensions() -> Seq<Seq<char>> {
    seq![
        "mp3"@, "flac"@, "wav"@, "ogg"@, "opus"@, "m4a"@, "aac"@, "wma"@, "aiff"@, "aif"@, "ape"@,
        "wv"@, "mp4"@, "m4b"@, "mka"@, "ac3"@, "dts"@, "mpc"@, "tta"@, "spx"@, "caf"@, "mid"@,
        "midi"@,
    ]
}

/// Whether `ext` names an accepted media format, ignoring ASCII case.
pub open spec fn spec_media_extension(ext: Seq<char>) -> bool {
    media_extensions().contains(ascii_lower_seq(ext))
}

/// Whether `ext` names an accepted media format, ignoring ASCII case.
pub fn media_extension(ext: &str) -> (r: bool)
    ensures
        r == spec_media_extension(ext@),
{
    let v = chars_vec(ext);
    let known: [&'static str; 23] = [
        "mp3", "flac", "wav", "ogg", "opus", "m4a", "aac", "wma", "aiff", "aif", "ape", "wv", "mp4",
        "m4b", "mka", "ac3", "dts", "mpc", "tta", "spx", "caf", "mid", "midi",
    ];
    assert(known@.map_values(|k: &'static str| k@) =~= media_extensions());
    let mut i: usize = 0;
    while i < 23
        invariant
            i <= 23,
            v@ == ext@,
            known@.map_values(|k: &'static str| k@) == media_extensions(),
            forall|j: int| 0 <= j < i ==> ascii_lower_seq(v@) != #[trigger] media_extensions()[j],
        decreases 23 - i,
    {
        let candidate: &str = known[i];
        if lower_equals(&v, candidate) {
            proof {
                assert(known@.map_values(|k: &'static str| k@)[i as int] == candidate@);
                assert(media_extensions()[i as int] == ascii_lower_seq(ext@));
            }
            return true;
        }
        proof {
            assert(known@.map_values(|k: &'static str| k@)[i as int] == candidate@);
        }
        i += 1;
    }
    proof {
        if media_extensions().contains(ascii_lower_seq(ext@)) {
            let j = media_extensions().index_of(ascii_lower_seq(ext@));
            assert(ascii_lower_seq(v@) != media_extensions()[j]);
        }
    }
    false
}

/// The extension of a file name (`Path::extension`): what follows its last
/// `.`; none when it has no `.`, or its only `.` is the first byte.
pub open spec fn extension_bytes(name: Seq<u8>) -> Option<Seq<u8>> {
    match name.index_of_last(46u8) {
        Some(i) => if i == 0 { None } else { Some(name.subrange(i + 1, name.len() as int)) },
        None => None,
    }
}

/// The extension bytes of a path with these components, if it has one.
pub open spec fn path_extension_bytes(parts: Seq<PathPart>) -> Option<Seq<u8>> {
    match file_name_bytes(parts) {
        Some(name) => extension_bytes(name),
        None => None,
    }
}

/// The extension of `path` as text (`Path::extension`, read with
/// `OsStr::to_str`): present when the path has an extension whose bytes are
/// valid UTF-8, and then the text those bytes encode.
#[verifier::external_body]
fn path_extension(path: &Path) -> (r: Option<String>)
    ensures
        r is Some <==> (path_extension_bytes(path_parts(path)) matches Some(b) && valid_utf8(b)),
        r matches Some(s) ==> s@ == decode_utf8(path_extension_bytes(path_parts(path))->0),
{
    match path.extension() {
        Some(ext) => match ext.to_str() {
            Some(text) => Some(text.to_string()),
            None => None,
        },
        None => None,
    }
}

/// Whether a file's extension names an accepted media format, ignoring
/// ASCII case; a file without a readable extension is not media.
pub fn is_media_extension(path: &Path) -> (r: bool)
    ensures
        r == (match path_extension_bytes(path_parts(path)) {
            Some(b) => valid_utf8(b) && spec_media_extension(decode_utf8(b)),
            None => false,
        }),
{
    match path_extension(path) {
        Some(ext) => media_extension(ext.as_str()),
        None => false,
    }
}


/// What a yes/no answer in the playlist editor does.
#[derive(Debug, Clone, Copy, PartialEq, Eq, Structural)]
pub enum ConfirmAction {
    /// Add the paths of an interrupted folder scan anyway.
    StagePartialScan,
    /// Drop the paths of an interrupted folder scan.
    DiscardPartialScan,
    /// Leave the editor, dropping its staged changes.
    DiscardEdits,
    /// Delete the saved playlist being edited.
    DeleteSaved,
    /// Nothing to do.
    Nothing,
}

/// The action of a yes/no answer under `overlay`, and the overlay shown
/// afterwards: the three confirmation dialogs close whatever the answer
/// (leaving the editor closes it too); an answer under any other overlay
/// does nothing.
pub fn confirm_action(overlay: EditorOverlay, yes: bool) -> (r: (ConfirmAction, EditorOverlay))
    ensures
        r == (match overlay {
            EditorOverlay::PartialScanConfirm => (if yes { ConfirmAction::StagePartialScan } else { ConfirmAction::DiscardPartialScan }, EditorOverlay::Closed),
            EditorOverlay::DiscardConfirm => (if yes { ConfirmAction::DiscardEdits } else { ConfirmAction::Nothing }, EditorOverlay::Closed),
            EditorOverlay::DeleteConfirm => (if yes { ConfirmAction::DeleteSaved } else { ConfirmAction::Nothing }, EditorOverlay::Closed),
            _ => (ConfirmAction::Nothing, overlay),
        }),
{
    match overlay {
        EditorOverlay::PartialScanConfirm => (
            if yes { ConfirmAction::StagePartialScan } else { ConfirmAction::DiscardPartialScan },
            EditorOverlay::Closed,
        ),
        EditorOverlay::DiscardConfirm => (
            if yes { ConfirmAction::DiscardEdits } else { ConfirmAction::Nothing },
            EditorOverlay::Closed,
        ),
        EditorOverlay::DeleteConfirm => (
            if yes { ConfirmAction::DeleteSaved } else { ConfirmAction::Nothing },
            EditorOverlay::Closed,
        ),
        _ => (ConfirmAction::Nothing, overlay),
    }
}

/// Times the audio backend is tried at startup before the simulated one is
/// used instead.
pub const BACKEND_START_ATTEMPTS: usize = 3;

/// After failed startup attempt `attempt` (counting from 1): the pause in
/// ms before the next attempt, or none after the last one.
pub fn retry_delay_ms(attempt: usize) -> (r: Option<u64>)
    ensures
        attempt < BACKEND_START_ATTEMPTS ==> r == Some((150 * attempt) as u64),
        attempt >= BACKEND_START_ATTEMPTS ==> r is None,
{
    if attempt < BACKEND_START_ATTEMPTS {
        Some(150 * attempt as u64)
    } else {
        None
    }
}

/// Texts joined with a separator between each two.
pub open spec fn joined(parts: Seq<Seq<char>>, sep: Seq<char>) -> Seq<char>
    decreases parts.len(),
{
    if parts.len() == 0 {
        Seq::empty()
    } else if parts.len() == 1 {
        parts[0]
    } else {
        joined(parts.drop_last(), sep) + sep + parts.last()
    }
}

/// The record of one failed startup attempt.
pub fn attempt_failure(attempt: usize, error: &str) -> (r: String)
    ensures
        r@ == "attempt "@ + decimal(attempt as nat) + ": "@ + error@,
{
    let mut v = chars_vec("attempt ");
    extend_chars(&mut v, &decimal_chars(attempt as u64));
    extend_chars(&mut v, &chars_vec(": "));
    extend_chars(&mut v, &chars_vec(error));
    string_from_chars(&v)
}

/// The lasting footer error when every startup attempt failed and the
/// simulated backend is used instead.
pub fn fallback_notice(failures: &Vec<String>) -> (r: String)
    ensures
        r@ == "VLC failed after "@ + decimal(BACKEND_START_ATTEMPTS as nat) + " attempts ("@
            + joined(failures@.map_values(|f: String| f@), "; "@) + "); using fake backend"@,
{
    let ghost parts = failures@.map_values(|f: String| f@);
    let mut details: Vec<char> = Vec::new();
    let mut i: usize = 0;
    while i < failures.len()
        invariant
            i <= failures.len(),
            parts == failures@.map_values(|f: String| f@),
            details@ == joined(parts.take(i as int), "; "@),
        decreases failures.len() - i,
    {
        if i > 0 {
            extend_chars(&mut details, &chars_vec("; "));
        }
        extend_chars(&mut details, &chars_vec(failures[i].as_str()));
        proof {
            let next = parts.take(i + 1);
            assert(next.drop_last() =~= parts.take(i as int));
            assert(next.last() == failures@[i as int]@);
            if i == 0 {
                assert(details@ =~= joined(next, "; "@));
            }
        }
        i += 1;
    }
    assert(parts.take(failures.len() as int) =~= parts);
    let mut v = chars_vec("VLC failed after ");
    extend_chars(&mut v, &decimal_chars(BACKEND_START_ATTEMPTS as u64));
    extend_chars(&mut v, &chars_vec(" attempts ("));
    extend_chars(&mut v, &details);
    extend_chars(&mut v, &chars_vec("); using fake backend"));
    string_from_chars(&v)
}

/// The playlist cursor restored at startup for the saved track at `index`:
/// one row above it, so the track shows below the cursor.
pub fn restored_cursor(index: usize) -> (r: usize)
    ensures
        r == if index > 0 { index - 1 } else { 0 },
{
    if index > 0 { index - 1 } else { 0 }
}

/// The first footer message of a session: a warning when the settings file
/// was invalid, else the backend's startup failure as a lasting error, else
/// a hint when the playlist is empty, else nothing.
pub fn startup_status(state_invalid: bool, fallback_notice: Option<String>, playlist_empty: bool) -> (r: Option<(String, StatusLevel)>)
    ensures
        state_invalid ==> (r matches Some((m, l)) && l == StatusLevel::Warn
            && m@ == "State file was invalid; settings reset to defaults"@),
        !state_invalid && fallback_notice is Some ==> (r matches Some((m, l)) && l == StatusLevel::Error
            && fallback_notice == Some(m)),
        !state_invalid && fallback_notice is None && playlist_empty ==> (r matches Some((m, l))
            && l == StatusLevel::Info && m@ == "Empty playlist — press a to add music, or ? for help"@),
        !state_invalid && fallback_notice is None && !playlist_empty ==> r is None,
{
    if state_invalid {
        return Some((string_from_str("State file was invalid; settings reset to defaults"), StatusLevel::Warn));
    }
    match fallback_notice {
        Some(notice) => Some((notice, StatusLevel::Error)),
        None => if playlist_empty {
            Some((string_from_str("Empty playlist — press a to add music, or ? for help"), StatusLevel::Info))
        } else {
            None
        },
    }
}

} // verus!
