use std::path::{Path, PathBuf};

use tz_player::analysis::{
    bounded_setting, decoded_limit_error, map_decode_error, parse_u64, validate_limits,
    window_size, AnalysisError, AnalysisKind, AnalysisLimits,
};
use tz_player::bench::{
    calibration_step, civil_from_days, padded_decimal, process_memory, samples_override_valid,
    sanitize_label, timestamp_from_unix, ProcessMemory, Scenario, MAX_CALIBRATION_ITERATIONS,
};
use tz_player::cache::{
    normalize_bands, params_hash_of, plan_byte_budget_eviction, prune_limits, try_plan_byte_budget_eviction,
    AnalysisCachePruneResult, AnalysisCachePruner, BeatParams, BeatStore, EnvelopeStore,
    SpectrumParams, SpectrumStore, WaveformParams, WaveformStore,
};
use tz_player::models::{MoveDirection, PlaylistSort};
use tz_player::ordering::reorder_selection;
use tz_player::pcm::DecodeError;
use tz_player::playlist::{
    append_positions, append_room, build_fts_query, needs_renumber, offset_within, playlist_order_by,
    renumbered_positions, reorder_neighbor, save_target, search_tokens, spread_positions,
    upper_bound_key, PlaylistStore, SaveTarget,
};
use tz_player::timespan::TimeSpan;

#[test]
fn epoch_date_conversion_is_correct() {
    assert_eq!(civil_from_days(0), (1970, 1, 1));
    assert_eq!(civil_from_days(20_675), (2026, 8, 10));
}

#[test]
fn civil_dates_cover_leap_days_and_earlier_eras() {
    assert_eq!(civil_from_days(11_016), (2000, 2, 29));
    assert_eq!(civil_from_days(-1), (1969, 12, 31));
    assert_eq!(civil_from_days(-719_468), (0, 3, 1));
}

#[test]
fn labels_are_safe_for_filenames() {
    assert_eq!(sanitize_label("before/fast path"), "before_fast_path");
}

#[test]
fn run_timestamps_are_zero_padded() {
    let t = timestamp_from_unix(20_675 * 86_400 + 13 * 3_600 + 5 * 60 + 9, 42);
    assert_eq!(t.iso8601, "2026-08-10T13:05:09.042Z");
    assert_eq!(t.file_stem, "20260810T130509042Z");
    let epoch = timestamp_from_unix(0, 0);
    assert_eq!(epoch.iso8601, "1970-01-01T00:00:00.000Z");
    assert_eq!(padded_decimal(7, 3), vec!['0', '0', '7']);
    assert_eq!(padded_decimal(12_345, 4), vec!['1', '2', '3', '4', '5']);
}

#[test]
fn calibration_scales_short_rounds_and_stops_at_target() {
    let target = TimeSpan::from_millis(100);
    assert_eq!(calibration_step(1, TimeSpan::from_millis(1), target), Some(16));
    assert_eq!(calibration_step(4, TimeSpan::from_millis(60), target), Some(8));
    assert_eq!(calibration_step(4, TimeSpan::from_millis(100), target), None);
    assert_eq!(calibration_step(MAX_CALIBRATION_ITERATIONS, TimeSpan::zero(), target), None);
    assert_eq!(
        calibration_step(1_000_000, TimeSpan::from_millis(1), target),
        Some(MAX_CALIBRATION_ITERATIONS)
    );
}

#[test]
fn process_memory_reads_status_lines() {
    let status = "Name:\ttz\nVmHWM:\t  2048 kB\nVmRSS:\t1024 kB\n";
    assert_eq!(
        process_memory(Some(status)),
        ProcessMemory { resident_bytes: Some(1_048_576), peak_resident_bytes: Some(2_097_152) }
    );
    assert_eq!(
        process_memory(Some("VmRSS: abc kB\r\nVmRSS: 5 kB")).resident_bytes,
        Some(5_120)
    );
    assert_eq!(process_memory(None), ProcessMemory { resident_bytes: None, peak_resident_bytes: None });
    assert_eq!(process_memory(Some("")).peak_resident_bytes, None);
}

#[test]
fn scenarios_and_sample_overrides() {
    let names: Vec<&str> = Scenario::all().into_iter().map(|s| s.as_str()).collect();
    assert_eq!(names, vec!["analysis", "database", "disk", "tui"]);
    assert!(!samples_override_valid(Some(0)));
    assert!(samples_override_valid(Some(500)));
    assert!(!samples_override_valid(Some(501)));
    assert!(samples_override_valid(None));
}

#[test]
fn numbers_parse_like_the_standard_library() {
    assert_eq!(parse_u64("+12"), Some(12));
    assert_eq!(parse_u64("007"), Some(7));
    assert_eq!(parse_u64("-1"), None);
    assert_eq!(parse_u64(""), None);
    assert_eq!(parse_u64("+"), None);
    assert_eq!(parse_u64(" 5"), None);
    assert_eq!(parse_u64("18446744073709551615"), Some(u64::MAX));
    assert_eq!(parse_u64("18446744073709551616"), None);
    for text in ["0", "42", "+9", "x", "99999999999999999999", "1_0"] {
        assert_eq!(parse_u64(text), text.parse::<u64>().ok(), "{text}");
    }
}

#[test]
fn settings_are_defaulted_and_clamped() {
    assert_eq!(bounded_setting(None, 7, 1, 10), 7);
    assert_eq!(bounded_setting(Some("junk"), 7, 1, 10), 7);
    assert_eq!(bounded_setting(Some("0"), 7, 1, 10), 1);
    assert_eq!(bounded_setting(Some("99"), 7, 1, 10), 10);
    let limits = AnalysisLimits::from_env(Some("16"), Some("abc"), Some("100000"));
    assert_eq!(limits.max_decoded_bytes, 16);
    assert_eq!(limits.max_duration, TimeSpan::from_secs(3_600));
    assert_eq!(limits.execution_timeout, TimeSpan::from_secs(900));
    assert!(validate_limits(limits).is_ok());
}

#[test]
fn analysis_enforces_byte_and_duration_limits_as_pcm_arrives() {
    let defaults = AnalysisLimits::default();
    assert_eq!(defaults.max_frames(44_100), 33_554_432);
    let short = AnalysisLimits {
        max_decoded_bytes: 1_073_741_824,
        max_duration: TimeSpan::from_secs(1),
        execution_timeout: TimeSpan::from_secs(1),
    };
    assert_eq!(short.max_frames(44_100), 44_100);
    let tiny = AnalysisLimits { max_decoded_bytes: 8 * 16, ..short };
    assert_eq!(tiny.max_frames(44_100), 16);
    match decoded_limit_error(16) {
        AnalysisError::ResourceLimit(m) => {
            assert_eq!(m, "decoded PCM exceeds configured limit (16 stereo frames)")
        }
        other => panic!("unexpected {other:?}"),
    }
}

#[test]
fn invalid_limits_are_resource_errors() {
    let zero = AnalysisLimits { max_decoded_bytes: 4, ..AnalysisLimits::default() };
    match validate_limits(zero) {
        Err(AnalysisError::ResourceLimit(m)) => assert_eq!(m, "analysis limits must be greater than zero"),
        other => panic!("unexpected {other:?}"),
    }
    let huge = AnalysisLimits { execution_timeout: TimeSpan::from_secs(901), ..AnalysisLimits::default() };
    match validate_limits(huge) {
        Err(AnalysisError::ResourceLimit(m)) => assert_eq!(m, "analysis limits exceed compiled safety ceilings"),
        other => panic!("unexpected {other:?}"),
    }
}

#[test]
fn analysis_errors_render_their_messages() {
    assert_eq!(AnalysisError::NotFound("nope.wav".into()).message(), "file not found: nope.wav");
    assert_eq!(AnalysisError::FfmpegUnavailable.message(), "FFmpeg unavailable");
    match map_decode_error(DecodeError::InvalidSample) {
        AnalysisError::Decode(m) => assert_eq!(m, "invalid PCM sample"),
        other => panic!("unexpected {other:?}"),
    }
    assert_ne!(AnalysisKind::Spectrum, AnalysisKind::Beat);
}

#[test]
fn spectrum_windows_are_powers_of_two_between_256_and_2048() {
    assert_eq!(window_size(10), 256);
    assert_eq!(window_size(300), 1_024);
    assert_eq!(window_size(512), 1_024);
    assert_eq!(window_size(5_000), 2_048);
}

#[test]
fn search_tokens_and_full_text_query() {
    assert_eq!(search_tokens("  Foo\tBAR  baz "), vec!["foo", "bar", "baz"]);
    assert!(search_tokens(" \n ").is_empty());
    assert_eq!(
        build_fts_query(&vec!["a\"b".to_string(), "c".to_string()]),
        "\"a\"\"b\"* AND \"c\"*"
    );
    assert_eq!(build_fts_query(&vec![]), "");
}

#[test]
fn metadata_view_sorts_are_stable_and_do_not_change_playlist_order() {
    assert_eq!(playlist_order_by(PlaylistSort::Playlist), "playlist_items.pos_key, playlist_items.id");
    for sort in [PlaylistSort::Track, PlaylistSort::Artist, PlaylistSort::Album] {
        assert!(playlist_order_by(sort).ends_with("playlist_items.pos_key, playlist_items.id"));
    }
}

#[test]
fn draft_positions_leave_room_between_rows() {
    assert_eq!(append_positions(0, 3), vec![10_000, 20_000, 30_000]);
    assert_eq!(append_positions(50_000, 2), vec![60_000, 70_000]);
    assert_eq!(renumbered_positions(10_000, 3), vec![10_000, 20_000, 30_000]);
    assert_eq!(renumbered_positions(i64::MAX, 2), vec![i64::MAX, i64::MAX]);
    assert!(needs_renumber(10_000, Some(10_002), 2));
    assert!(!needs_renumber(10_000, Some(20_000), 2));
    assert!(!needs_renumber(10_000, None, 2));
    assert_eq!(spread_positions(10_000, 20_000, 3), vec![12_500, 15_000, 17_500]);
    assert_eq!(spread_positions(5, 6, 2), vec![6, 7]);
    assert_eq!(upper_bound_key(5, None), 10_005);
    assert_eq!(upper_bound_key(5, Some(9)), 9);
    assert_eq!(reorder_neighbor(0, true), None);
    assert_eq!(reorder_neighbor(2, true), Some(1));
    assert_eq!(reorder_neighbor(2, false), Some(3));
}

#[test]
fn saved_playlist_crud_and_name_conflicts_are_transactional() {
    assert_eq!(save_target(Some(3), Some(3)), SaveTarget::Existing(3));
    assert_eq!(save_target(Some(3), Some(4)), SaveTarget::NameTaken);
    assert_eq!(save_target(Some(3), None), SaveTarget::Renamed(3));
    assert_eq!(save_target(None, Some(1)), SaveTarget::NameTaken);
    assert_eq!(save_target(None, None), SaveTarget::Created);
}

#[test]
fn random_offsets_stay_within_the_rows() {
    assert_eq!(offset_within(17, 5), 2);
    assert_eq!(offset_within(17, 0), 0);
    assert_eq!(offset_within(u64::MAX, 1), 0);
}

#[test]
fn playlist_store_keeps_its_database_path() {
    let store = PlaylistStore::new(PathBuf::from("/tmp/tz.sqlite3"));
    assert_eq!(store.db_path(), Path::new("/tmp/tz.sqlite3"));
}

#[test]
fn move_selection_cursor_up() {
    assert_eq!(reorder_selection(&vec![1, 2, 3, 4], MoveDirection::Up, &vec![3], None), vec![1, 3, 2, 4]);
    assert_eq!(reorder_selection(&vec![1, 2, 3, 4], MoveDirection::Up, &vec![], Some(2)), vec![2, 1, 3, 4]);
    assert_eq!(reorder_selection(&vec![1, 2, 3, 4], MoveDirection::Up, &vec![1], None), vec![1, 2, 3, 4]);
    assert_eq!(reorder_selection(&vec![1, 2, 3, 4], MoveDirection::Down, &vec![1, 2], None), vec![3, 1, 2, 4]);
    assert_eq!(reorder_selection(&vec![1, 2, 3, 4], MoveDirection::Down, &vec![], None), vec![1, 2, 3, 4]);
}

#[test]
fn sort_and_direction_names_parse_ignoring_case() {
    assert_eq!(PlaylistSort::parse("TITLE"), Some(PlaylistSort::Track));
    assert_eq!(PlaylistSort::parse("album"), Some(PlaylistSort::Album));
    assert_eq!(PlaylistSort::parse("genre"), None);
    assert_eq!(PlaylistSort::Album.cycle(), PlaylistSort::Playlist);
    assert_eq!(PlaylistSort::Artist.display_name(), "Artist");
    assert_eq!(MoveDirection::parse("Down"), Some(MoveDirection::Down));
    assert_eq!(MoveDirection::parse("left"), None);
}

#[test]
fn params_fingerprint_is_sha1_of_the_json() {
    assert_eq!(params_hash_of("abc"), "a9993e364706816aba3e25717850c26c9cd0d89d");
    let beat = BeatStore::new(PathBuf::from("/c.db"), BeatParams { hop_ms: 5 });
    assert_eq!(beat.params().hop_ms, 10);
    assert_eq!(beat.params_json(), "{\"hop_ms\":10}");
    assert_eq!(beat.params_hash(), params_hash_of("{\"hop_ms\":10}"));
    let envelope = EnvelopeStore::new(PathBuf::from("/c.db"), 50);
    assert_eq!(envelope.bucket_ms(), 50);
    assert_eq!(envelope.params_json(), "{\"bucket_ms\":50}");
    let spectrum = SpectrumStore::new(PathBuf::from("/c.db"), SpectrumParams { band_count: 4, hop_ms: 40 });
    assert_eq!(spectrum.params().band_count, 8);
    let waveform = WaveformStore::new(PathBuf::from("/c.db"), WaveformParams::default_params());
    assert_eq!(waveform.params().hop_ms, 20);
}

#[test]
fn bands_are_truncated_or_zero_padded() {
    assert_eq!(normalize_bands(&vec![1, 2, 3], 5), vec![1, 2, 3, 0, 0]);
    assert_eq!(normalize_bands(&vec![1, 2, 3], 2), vec![1, 2]);
}

#[test]
fn prune_evicts_by_age_and_byte_budget() {
    let rows = vec![(1, 100), (2, 50), (3, 70)];
    assert_eq!(plan_byte_budget_eviction(&rows, &vec![2], 220, 100), (vec![1, 3], 50));
    assert_eq!(plan_byte_budget_eviction(&rows, &vec![], 90, 100), (vec![], 90));
    assert_eq!(prune_limits(-5, 0, -1), (0, 1, 0));
    let result = AnalysisCachePruneResult { entries_pruned: 2, bytes_before: 500, bytes_after: 200 };
    assert_eq!(result.bytes_reclaimed(), 300);
    let grew = AnalysisCachePruneResult { entries_pruned: 0, bytes_before: 10, bytes_after: 20 };
    assert_eq!(grew.bytes_reclaimed(), 0);
    let pruner = AnalysisCachePruner::new(PathBuf::from("/c.db"));
    assert_eq!(pruner.db_path, PathBuf::from("/c.db"));
}

#[test]
fn selected_runs_move_as_blocks() {
    let ids = vec![1, 2, 3, 4, 5, 6, 7];
    assert_eq!(reorder_selection(&ids, MoveDirection::Up, &vec![3, 4, 6], None), vec![1, 3, 4, 2, 6, 5, 7]);
    assert_eq!(reorder_selection(&ids, MoveDirection::Down, &vec![3, 4, 6], None), vec![1, 2, 5, 3, 4, 7, 6]);
    assert_eq!(reorder_selection(&ids, MoveDirection::Up, &vec![1, 2, 5], None), vec![1, 2, 3, 5, 4, 6, 7]);
    assert_eq!(reorder_selection(&ids, MoveDirection::Up, &vec![9], None), ids);
    assert_eq!(reorder_selection(&vec![1, 2, 3], MoveDirection::Up, &vec![], Some(2)), vec![2, 1, 3]);
}

#[test]
fn eviction_handles_negative_sizes_and_reports_overflow() {
    assert_eq!(try_plan_byte_budget_eviction(&vec![(1, -5), (2, 150)], &vec![], 200, 100), Some((vec![1, 2], 55)));
    assert_eq!(try_plan_byte_budget_eviction(&vec![(1, i64::MIN + 1)], &vec![], 200, 100), None);
    assert_eq!(try_plan_byte_budget_eviction(&vec![(1, 60)], &vec![], 200, 100), Some((vec![1], 140)));
}

#[test]
fn append_room_counts_keys_that_fit() {
    assert_eq!(append_room(i64::MAX), None);
    assert_eq!(append_room(i64::MAX - 10_000), Some(0));
    assert_eq!(append_room(i64::MAX - 30_000), Some(2));
    assert_eq!(append_positions(-5, 2), vec![9_995, 19_995]);
}
