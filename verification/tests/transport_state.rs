use tz_player::navigation::{
    attempt_failure, clear_answer, confirm_action, ConfirmAction, EditorOverlay, clear_request, fallback_notice, play_request,
    play_request_message, restored_cursor, retry_delay_ms, ClearAnswer, PlayRequest,
};
use tz_player::player::{
    track_duration, BackendStatus, PollOutcome, TransportState, DEFAULT_DURATION_MS,
};
use tz_player::transport::RepeatMode;

fn playing(duration_ms: u64) -> TransportState {
    let mut s = TransportState::new();
    s.begin_play(1, 7);
    s.track_found("/m/a.mp3".into(), Some("A".into()), None, None, duration_ms);
    s.play_started();
    s
}

#[test]
fn loading_and_starting_a_track() {
    let mut s = TransportState::new();
    assert_eq!(s.status, BackendStatus::Idle);
    assert_eq!(s.volume, 100);
    s.seeked(5_000);
    s.begin_play(3, 9);
    assert_eq!(s.status, BackendStatus::Loading);
    assert_eq!((s.playlist_id, s.item_id, s.position_ms), (Some(3), Some(9), 0));
    assert!(!s.anchored);
    s.play_failed("no such file".into());
    assert_eq!(s.status, BackendStatus::Error);
    assert_eq!(s.error.as_deref(), Some("no such file"));
    assert_eq!(s.context(), Some((3, 9)));
}

#[test]
fn stored_durations_fall_back_to_the_default() {
    assert_eq!(track_duration(Some(1_000), DEFAULT_DURATION_MS), 1_000);
    assert_eq!(track_duration(Some(0), DEFAULT_DURATION_MS), 180_000);
    assert_eq!(track_duration(None, DEFAULT_DURATION_MS), 180_000);
    assert_eq!(track_duration(Some(-1), DEFAULT_DURATION_MS), u64::MAX);
}

#[test]
fn pause_toggles_and_stop_resets_the_position() {
    let mut s = playing(10_000);
    assert!(s.can_toggle_pause());
    s.pause_toggled();
    assert_eq!(s.status, BackendStatus::Paused);
    s.pause_toggled();
    assert_eq!(s.status, BackendStatus::Playing);
    s.seeked(4_000);
    s.stop_asked();
    s.stopped();
    assert_eq!((s.status, s.position_ms, s.anchored), (BackendStatus::Stopped, 0, false));
    assert!(!s.can_toggle_pause());
    s.clear_context();
    assert_eq!(s.context(), None);
    assert_eq!(s.duration_ms, 0);
}

#[test]
fn polls_extrapolate_while_playing_and_detect_the_end() {
    let mut s = playing(10_000);
    assert_eq!(s.poll(1_000, 0, BackendStatus::Playing, 999), PollOutcome::Updated { reanchored: true });
    assert_eq!(s.position_ms, 1_000);
    assert_eq!(s.poll(1_000, 0, BackendStatus::Playing, 250), PollOutcome::Updated { reanchored: false });
    assert_eq!(s.position_ms, 1_250);
    assert_eq!(s.poll(1_000, 12_000, BackendStatus::Idle, 20_000), PollOutcome::Updated { reanchored: false });
    assert_eq!((s.position_ms, s.duration_ms), (12_000, 12_000));
    assert_eq!(s.status, BackendStatus::Playing);
    assert_eq!(s.poll(11_960, 0, BackendStatus::Stopped, 0), PollOutcome::EndReached);
}

#[test]
fn requested_stops_and_stopped_transports_never_advance() {
    let mut s = playing(10_000);
    s.stop_asked();
    assert_eq!(s.poll(9_990, 0, BackendStatus::Stopped, 0), PollOutcome::Updated { reanchored: true });
    assert_eq!(s.status, BackendStatus::Stopped);
    assert_eq!(s.poll(9_990, 0, BackendStatus::Stopped, 0), PollOutcome::Ignored);
}

#[test]
fn modes_and_volume() {
    let mut s = TransportState::new();
    s.cycle_repeat();
    assert_eq!(s.repeat_mode, RepeatMode::One);
    s.toggle_shuffle();
    assert!(s.shuffle);
    s.volume_set(150);
    assert_eq!(s.volume, 100);
    s.volume_set(40);
    assert_eq!(s.volume, 40);
}

#[test]
fn play_keys_and_clear_confirmation() {
    assert_eq!(play_request(true, true, 0, None), PlayRequest::TogglePause);
    assert_eq!(play_request(true, false, 0, Some(4)), PlayRequest::EmptyPlaylist);
    assert_eq!(play_request(false, true, 3, Some(4)), PlayRequest::PlayItem(4));
    assert_eq!(play_request(false, false, 3, None), PlayRequest::NoSelection);
    assert_eq!(
        play_request_message(PlayRequest::EmptyPlaylist),
        Some("Playlist empty — press a to add music")
    );
    assert_eq!(play_request_message(PlayRequest::NoSelection), Some("No track selected"));
    assert_eq!(play_request_message(PlayRequest::PlayItem(1)), None);
    assert_eq!(clear_request(0), (false, "Playlist already empty"));
    assert_eq!(clear_request(2), (true, "Clear playlist? y=yes n=no"));
    assert_eq!(clear_answer(true, true), ClearAnswer::Clear);
    assert_eq!(clear_answer(false, true), ClearAnswer::Cancelled);
    assert_eq!(clear_answer(true, false), ClearAnswer::Ignored);
}

#[test]
fn backend_startup_retries_then_falls_back() {
    assert_eq!(retry_delay_ms(1), Some(150));
    assert_eq!(retry_delay_ms(2), Some(300));
    assert_eq!(retry_delay_ms(3), None);
    let failures = vec![attempt_failure(1, "no device"), attempt_failure(2, "busy")];
    assert_eq!(failures[0], "attempt 1: no device");
    assert_eq!(
        fallback_notice(&failures),
        "VLC failed after 3 attempts (attempt 1: no device; attempt 2: busy); using fake backend"
    );
    assert_eq!(fallback_notice(&vec![]), "VLC failed after 3 attempts (); using fake backend");
    assert_eq!(restored_cursor(5), 4);
    assert_eq!(restored_cursor(0), 0);
}

#[test]
fn editor_confirmations_close_their_dialog() {
    assert_eq!(
        confirm_action(EditorOverlay::PartialScanConfirm, true),
        (ConfirmAction::StagePartialScan, EditorOverlay::Closed)
    );
    assert_eq!(
        confirm_action(EditorOverlay::PartialScanConfirm, false),
        (ConfirmAction::DiscardPartialScan, EditorOverlay::Closed)
    );
    assert_eq!(
        confirm_action(EditorOverlay::DiscardConfirm, true),
        (ConfirmAction::DiscardEdits, EditorOverlay::Closed)
    );
    assert_eq!(
        confirm_action(EditorOverlay::DeleteConfirm, false),
        (ConfirmAction::Nothing, EditorOverlay::Closed)
    );
    assert_eq!(
        confirm_action(EditorOverlay::SaveName, true),
        (ConfirmAction::Nothing, EditorOverlay::SaveName)
    );
}
