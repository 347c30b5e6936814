use tz_player::analysis::{waveform_buckets, AnalysisError};
use tz_player::bench::{run_id, selected_scenarios, suite_config, Preset, Scenario};
use tz_player::helper::PlaybackRead;
use tz_player::levels::{
    envelope_lookup_position, level_source, prune_check_due, readiness_label, LevelSource,
};
use tz_player::navigation::{startup_status, StatusLevel};
use tz_player::pcm::DecodeError;
use tz_player::pcm_stream::{copy_count, EventOutcome, FrameAssembler, PlaybackState, ReadStart, StreamEvent};
use tz_player::schema::{migration_plan, SCHEMA_VERSION};
use tz_player::seek_trim::{playable_duration, seek_padding_frames, start_frame_for};
use tz_player::timespan::TimeSpan;
use tz_player::transport::reached_natural_end;

#[test]
fn assembler_hands_out_whole_frames_only() {
    let mut a = FrameAssembler::new(8);
    assert_eq!(a.push(&[1, 2, 3]), Vec::<u8>::new());
    assert_eq!(a.push(&[4, 5, 6, 7, 8, 9, 10]), vec![1, 2, 3, 4, 5, 6, 7, 8]);
    assert!(a.finish().is_err());
    let rest = a.push(&[11, 12, 13, 14, 15, 16]);
    assert_eq!(rest, vec![9, 10, 11, 12, 13, 14, 15, 16]);
    assert!(a.finish().is_ok());
}

#[test]
fn partial_frame_at_end_of_stream_is_an_error() {
    let mut a = FrameAssembler::new(8);
    a.push(&[0; 12]);
    match a.finish() {
        Err(DecodeError::Message(m)) => assert_eq!(m, "helper returned a partial PCM frame"),
        other => panic!("unexpected {other:?}"),
    }
}

#[test]
fn reads_must_be_frame_aligned_and_report_end_and_failures() {
    let mut s = PlaybackState::new(2, 0);
    assert!(matches!(s.start_read(3), ReadStart::Fail(DecodeError::UnalignedBuffer)));
    assert!(matches!(s.start_read(0), ReadStart::Done(PlaybackRead::Data(0))));
    assert!(matches!(s.start_read(4), ReadStart::Proceed));
    assert!(matches!(
        s.on_event(0, StreamEvent::Idle),
        EventOutcome::Answer(Ok(PlaybackRead::Underrun))
    ));
    assert_eq!(s.underrun_count, 1);
    assert!(matches!(
        s.on_event(2, StreamEvent::Failed(DecodeError::InvalidSample)),
        EventOutcome::Stop
    ));
    assert_eq!(s.finish_read(2, 4), PlaybackRead::Data(2));
    assert_eq!(s.frame_position, 1);
    assert!(matches!(s.start_read(4), ReadStart::Fail(DecodeError::InvalidSample)));
    assert!(s.pending_error.is_none());
    assert!(matches!(s.on_event(0, StreamEvent::Closed(Ok(()))), EventOutcome::Stop));
    assert!(s.finished);
    assert!(matches!(s.start_read(4), ReadStart::Done(PlaybackRead::Eof)));
    assert_eq!(s.finish_read(0, 4), PlaybackRead::Eof);
}

#[test]
fn stalls_become_errors_with_the_waiting_time() {
    let mut s = PlaybackState::new(2, 10);
    match s.on_event(0, StreamEvent::Stalled(1500)) {
        EventOutcome::Answer(Err(DecodeError::Message(m))) => {
            assert_eq!(m, "bundled helper PCM stalled for 1500 ms")
        }
        other => panic!("unexpected {other:?}"),
    }
    assert!(matches!(s.on_event(6, StreamEvent::Stalled(7)), EventOutcome::Stop));
    assert!(matches!(&s.pending_error, Some(DecodeError::Message(m)) if m == "bundled helper PCM stalled for 7 ms"));
    assert_eq!(s.finish_read(6, 8), PlaybackRead::Data(6));
    assert_eq!(s.frame_position, 13);
}

#[test]
fn unclean_exit_is_not_the_end_of_the_track() {
    let mut s = PlaybackState::new(2, 0);
    assert!(matches!(
        s.on_event(0, StreamEvent::Closed(Err(DecodeError::InvalidPcmSpec))),
        EventOutcome::Answer(Err(DecodeError::InvalidPcmSpec))
    ));
    assert!(!s.finished);
}

#[test]
fn migrations_step_to_the_current_version() {
    assert_eq!(SCHEMA_VERSION, 7);
    assert_eq!(migration_plan(0).unwrap(), vec![1, 2, 3, 4, 5, 6, 7]);
    assert_eq!(migration_plan(5).unwrap(), vec![6, 7]);
    assert_eq!(migration_plan(7).unwrap(), Vec::<i32>::new());
    assert_eq!(migration_plan(8), Err((8, 7)));
}

#[test]
fn waveform_buckets_follow_the_hop() {
    let (buckets, duration) = waveform_buckets(1000, 45, 45, 20).unwrap();
    assert_eq!(buckets, vec![(0, 20, 0), (20, 40, 20), (40, 45, 40)]);
    assert_eq!(duration, 45);
    let (short, d) = waveform_buckets(44_100, 10, 10, 1).unwrap();
    assert_eq!(short, vec![(0, 10, 0)]);
    assert_eq!(d, 1);
    assert!(matches!(
        waveform_buckets(0, 10, 10, 20),
        Err(AnalysisError::Decode(m)) if m == "invalid stereo samples"
    ));
    assert!(waveform_buckets(1000, 10, 9, 20).is_err());
    assert!(waveform_buckets(1000, 0, 0, 20).is_err());
}

#[test]
fn natural_end_needs_an_unrequested_stop_near_the_end() {
    assert!(reached_natural_end(true, false, true, 10_000, 9_960));
    assert!(!reached_natural_end(true, false, true, 10_000, 9_949));
    assert!(!reached_natural_end(true, true, true, 10_000, 10_000));
    assert!(!reached_natural_end(false, false, true, 10_000, 10_000));
    assert!(!reached_natural_end(true, false, false, 10_000, 10_000));
    assert!(!reached_natural_end(true, false, true, 0, 0));
    assert!(reached_natural_end(true, false, true, 30, 0));
}

#[test]
fn level_readiness_and_sources() {
    assert_eq!(readiness_label(true, true, true, true, true), "analyzing");
    assert_eq!(readiness_label(false, true, true, true, true), "ready");
    assert_eq!(readiness_label(false, false, false, false, false), "missing");
    assert_eq!(readiness_label(false, true, false, true, false), "partial");
    assert_eq!(level_source("stopped", true), LevelSource::Missing);
    assert_eq!(level_source("paused", false), LevelSource::Envelope);
    assert_eq!(level_source("playing", true), LevelSource::Envelope);
    assert_eq!(level_source("playing", false), LevelSource::Fallback);
    assert_eq!(envelope_lookup_position(1_000, 50), 1_025);
    assert_eq!(envelope_lookup_position(u64::MAX - 3, 50), u64::MAX);
    assert!(prune_check_due(None, TimeSpan::from_secs(60)));
    assert!(!prune_check_due(Some(TimeSpan::from_secs(59)), TimeSpan::from_secs(60)));
    assert!(prune_check_due(Some(TimeSpan::from_secs(60)), TimeSpan::from_secs(60)));
}

#[test]
fn seek_start_and_mpeg_padding() {
    assert_eq!(start_frame_for(1_500, 44_100), 66_150);
    assert_eq!(start_frame_for(1, 999), 0);
    assert_eq!(start_frame_for(u64::MAX, 48_000), u64::MAX / 1000);
    assert_eq!(seek_padding_frames("mp3", 1105, 48_000, 44_100), 1203);
    assert_eq!(seek_padding_frames("flac", 1105, 48_000, 44_100), 0);
    assert_eq!(playable_duration(10_000, 500), 9_500);
    assert_eq!(playable_duration(10_000, -500), 10_000);
    assert_eq!(playable_duration(i64::MIN, 1), i64::MIN);
}

#[test]
fn startup_status_prefers_warnings_then_errors_then_hints() {
    let (m, l) = startup_status(true, Some("x".into()), true).unwrap();
    assert_eq!(m, "State file was invalid; settings reset to defaults");
    assert_eq!(l, StatusLevel::Warn);
    let (m, l) = startup_status(false, Some("audio unavailable".into()), true).unwrap();
    assert_eq!(m, "audio unavailable");
    assert_eq!(l, StatusLevel::Error);
    let (m, l) = startup_status(false, None, true).unwrap();
    assert_eq!(m, "Empty playlist — press a to add music, or ? for help");
    assert_eq!(l, StatusLevel::Info);
    assert!(startup_status(false, None, false).is_none());
}

#[test]
fn bench_presets_scenarios_and_run_ids() {
    let c = suite_config(Preset::Smoke, None);
    assert_eq!(c.preset, "smoke");
    assert_eq!(c.measure.samples, 5);
    assert_eq!(c.measure.warm_up, 1);
    assert_eq!(c.measure.target_sample_time, TimeSpan::from_millis(5));
    assert_eq!((c.audio_seconds, c.playlist_tracks, c.playlist_window_rows), (3, 500, 25));
    assert_eq!((c.tui_width, c.tui_height), (100, 30));
    let s = suite_config(Preset::Standard, Some(7));
    assert_eq!(s.measure.samples, 7);
    assert_eq!(s.playlist_tracks, 10_000);
    assert_eq!(
        selected_scenarios(&vec![]),
        vec![Scenario::Analysis, Scenario::Database, Scenario::Disk, Scenario::Tui]
    );
    assert_eq!(
        selected_scenarios(&vec![Scenario::Tui, Scenario::Database, Scenario::Tui]),
        vec![Scenario::Database, Scenario::Tui]
    );
    assert_eq!(run_id(Some("before/fast path"), "20260810T130509042Z"), "rust-before_fast_path-20260810T130509042Z");
    assert_eq!(run_id(Some(""), "stem"), "rust-stem");
    assert_eq!(run_id(None, "stem"), "rust-stem");
}

#[test]
fn empty_reads_come_only_after_an_answered_error() {
    let mut s = PlaybackState::new(2, 0);
    assert!(s.attached);
    assert!(matches!(s.on_event(0, StreamEvent::Idle), EventOutcome::Answer(Ok(PlaybackRead::Underrun))));
    assert!(s.attached);
    assert!(matches!(s.on_event(0, StreamEvent::Stalled(5000)), EventOutcome::Answer(Err(_))));
    assert!(!s.attached);
    assert!(s.error_answered);
    assert!(matches!(s.start_read(4), ReadStart::Proceed));
    assert_eq!(s.finish_read(0, 4), PlaybackRead::Data(0));
}

#[test]
fn copies_stay_within_the_buffer() {
    assert_eq!(copy_count(10, 4, 8), 4);
    assert_eq!(copy_count(2, 4, 8), 2);
    assert_eq!(copy_count(5, 8, 8), 0);
}
