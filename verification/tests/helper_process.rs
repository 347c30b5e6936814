use std::path::PathBuf;

use tz_player::capture::append_bounded;
use tz_player::compat::{contains_chars, library_compatibility};
use tz_player::manifest::{manifest_library_majors, manifest_list, manifest_value, split_commas};
use tz_player::pcm::DecodeError;
use tz_player::pcm_stream::{exit_error, header_error_message};
use tz_player::protocol::ExitCode;
use tz_player::helper::{decode_arguments, pcm_queue_chunks, HelperConfig, DECODE_INPUT_INDEX};
use tz_player::helper_cli::{parse_helper_command, DecodeArgs, HelperCommand};
use tz_player::pcm::PcmSpec;
use tz_player::resample::resample_positions;
use tz_player::pathnorm::{absolute_path, normalize_dot_components};
use tz_player::seek_trim::{frame_allocation, output_capacity, output_failure, seek_timestamp, TimelineProbe};

const MANIFEST: &str = "# pinned build\r\n\
version = \"7.1.1\"\r\n\
ffmpeg_release_commit = \"abc123\"\n\
decoders = [\"mp3\", \"flac\",, \"aac\" , \"\"]\n\
demuxers = []\n\
library_majors = {avcodec = 61, avformat=61 , avutil = 59, swresample = 5}\n";

#[test]
fn bounded_capture_keeps_the_first_bytes_only() {
    let mut collected = Vec::new();
    append_bounded(&mut collected, b"hello", 8);
    assert_eq!(collected, b"hello".to_vec());
    append_bounded(&mut collected, b" world", 8);
    assert_eq!(collected, b"hello wo".to_vec());
    append_bounded(&mut collected, b"!!", 8);
    assert_eq!(collected, b"hello wo".to_vec());
    let mut none = Vec::new();
    append_bounded(&mut none, b"abc", 0);
    assert!(none.is_empty());
}

#[test]
fn manifest_values_come_from_the_first_matching_line() {
    assert_eq!(manifest_value(MANIFEST, "version").as_deref(), Some("7.1.1"));
    assert_eq!(manifest_value(MANIFEST, "ffmpeg_release_commit").as_deref(), Some("abc123"));
    assert_eq!(manifest_value(MANIFEST, "missing"), None);
    assert_eq!(manifest_value("version = \"a\"\nversion = \"b\"", "version").as_deref(), Some("a"));
    assert_eq!(manifest_value("version = \"", "version"), None);
}

#[test]
fn manifest_lists_are_trimmed_and_sorted() {
    assert_eq!(
        manifest_list(MANIFEST, "decoders").unwrap(),
        vec!["aac".to_string(), "flac".to_string(), "mp3".to_string()]
    );
    assert_eq!(manifest_list(MANIFEST, "demuxers").unwrap(), Vec::<String>::new());
    assert_eq!(manifest_list(MANIFEST, "protocols"), None);
}

#[test]
fn manifest_library_majors_parse_name_number_pairs() {
    let majors = manifest_library_majors(MANIFEST).unwrap();
    assert_eq!(
        majors,
        vec![
            ("avcodec".to_string(), 61),
            ("avformat".to_string(), 61),
            ("avutil".to_string(), 59),
            ("swresample".to_string(), 5)
        ]
    );
    assert_eq!(manifest_library_majors("library_majors = {avcodec}"), None);
    assert_eq!(manifest_library_majors("library_majors = {avcodec = x}"), None);
    assert_eq!(manifest_library_majors("library_majors = {}"), None);
    assert_eq!(manifest_library_majors("other = 1"), None);
}

#[test]
fn commas_split_into_every_piece() {
    let pieces = split_commas(&"a,,b,".chars().collect());
    let text: Vec<String> = pieces.iter().map(|p| p.iter().collect()).collect();
    assert_eq!(text, vec!["a", "", "b", ""]);
}

#[test]
fn library_compatibility_checks_version_then_options() {
    assert!(library_compatibility("7.1", "7.1", "--disable-everything --enable-decoder=mp3").is_ok());
    let (code, message) = library_compatibility("7.1", "6.0", "").unwrap_err();
    assert_eq!(code, ExitCode::LibraryCompatibility);
    assert_eq!(message, "packaged FFmpeg version mismatch: expected 7.1, loaded 6.0");
    let (code, message) =
        library_compatibility("7.1", "7.1", "--enable-network --enable-gpl").unwrap_err();
    assert_eq!(code, ExitCode::LibraryCompatibility);
    assert_eq!(message, "packaged FFmpeg has forbidden configuration: --enable-gpl");
    let (_, message) = library_compatibility("7.1", "7.1", "x --enable-protocols").unwrap_err();
    assert_eq!(message, "packaged FFmpeg has forbidden configuration: --enable-protocols");
}

#[test]
fn substring_search_finds_any_occurrence() {
    let hay: Vec<char> = "abcabd".chars().collect();
    assert!(contains_chars(&hay, &"abd".chars().collect()));
    assert!(contains_chars(&hay, &Vec::new()));
    assert!(!contains_chars(&hay, &"abe".chars().collect()));
    assert!(!contains_chars(&hay, &"abcabda".chars().collect()));
}

#[test]
fn decode_arguments_round_trip_through_the_helper_parser() {
    let spec = PcmSpec { sample_rate: 44_100, channels: 2 };
    let args = decode_arguments("/music/a b.mp3", 66_150, spec);
    assert_eq!(
        args,
        vec![
            "decode", "--input", "/music/a b.mp3", "--start-ms", "1500", "--sample-rate", "44100",
            "--channels", "2", "--format", "f32le"
        ]
    );
    assert_eq!(
        parse_helper_command(&args).unwrap(),
        HelperCommand::Decode(DecodeArgs {
            input_index: DECODE_INPUT_INDEX,
            start_ms: 1500,
            sample_rate: 44_100,
            channels: 2
        })
    );
    let mono = decode_arguments("x", u64::MAX, PcmSpec { sample_rate: 1000, channels: 1 });
    assert_eq!(mono[4], (u64::MAX / 1000).to_string());
    assert!(parse_helper_command(&mono).is_err());
    assert_eq!(pcm_queue_chunks(spec), 6);
    assert_eq!(pcm_queue_chunks(PcmSpec { sample_rate: 8_000, channels: 1 }), 1);
}

#[test]
fn resampling_repeats_and_skips_whole_frames() {
    assert_eq!(resample_positions(3, 2, 2, 2, 3, 0), (vec![0, 1, 2, 3, 2, 3, 4, 5], 1));
    assert_eq!(resample_positions(2, 1, 2, 1, 1, 0), (vec![0, 0, 1, 1], 0));
    assert_eq!(resample_positions(3, 2, 1, 2, 1, 0), (vec![2], 1));
    assert_eq!(resample_positions(1, 2, 3, 48_000, 48_000, 0), (vec![0, 1, 1], 0));
    assert_eq!(resample_positions(0, 2, 2, 44_100, 48_000, 7), (vec![], 7));
}

#[test]
fn packet_boundaries_do_not_change_the_output_count() {
    let (whole, phase) = resample_positions(100, 2, 2, 44_100, 48_000, 0);
    let (first, mid) = resample_positions(37, 2, 2, 44_100, 48_000, 0);
    let (second, end) = resample_positions(63, 2, 2, 44_100, 48_000, mid);
    assert_eq!(first.len() + second.len(), whole.len());
    assert_eq!(end, phase);
    assert_eq!(whole.len(), (100 * 48_000 / 44_100) * 2);
}

#[test]
fn normalized_paths_normalize_to_themselves() {
    let once = normalize_dot_components("/a/./b/../c//d/..");
    assert_eq!(once, "/a/c");
    assert_eq!(normalize_dot_components(&once), once);
    let abs = absolute_path("x/../y/./z", "/home/u");
    assert_eq!(abs, "/home/u/y/z");
    assert_eq!(absolute_path(&abs, "/elsewhere"), abs);
    let rel = normalize_dot_components("../a/./b");
    assert_eq!(normalize_dot_components(&rel), rel);
}

#[test]
fn seek_timestamps_follow_the_stream_time_base() {
    assert_eq!(seek_timestamp(1_500, (1, 44_100)), 66_150);
    assert_eq!(seek_timestamp(1_500, (1, 1_000)), 1_500);
    assert_eq!(seek_timestamp(2_500, (1, 3)), 7);
    assert_eq!(seek_timestamp(1_500, (0, 1_000)), 1_500);
    assert_eq!(seek_timestamp(u64::MAX, (1, 1_000)), -1);
    assert_eq!(seek_timestamp(1_999, (1, -1)), -1);
}

#[test]
fn timeline_probe_finds_origin_and_leading_samples() {
    let mut probe = TimelineProbe::new();
    assert!(!probe.observe(None, 10, 0));
    assert_eq!(probe.decoded_rate, 1);
    assert!(!probe.observe(Some(-1_105), 47, 44_100));
    assert_eq!(probe.origin, Some(-1_105));
    assert_eq!(probe.first_samples, Some(47));
    assert_eq!(probe.decoded_rate, 44_100);
    assert!(probe.observe(Some(0), 1_152, 48_000));
    assert_eq!(probe.decoded_rate, 44_100);
    assert_eq!(probe.finish().unwrap(), (-1_105, 1_105));
    let (code, message) = TimelineProbe::new().finish().unwrap_err();
    assert_eq!(code, ExitCode::UnsupportedMedia);
    assert_eq!(message, "audio stream produced no timestamped frames");
}

#[test]
fn converted_frames_get_room_for_the_resampled_samples() {
    assert_eq!(output_capacity(1_152, 44_100, 48_000, Some(16)), 1_302);
    assert_eq!(output_capacity(0, 0, 48_000, None), 32);
    assert_eq!(output_capacity(10, 10, 10, Some(-5)), 42);
    assert_eq!(output_capacity(usize::MAX, 1, u32::MAX, Some(i64::MAX)), u64::MAX);
    assert_eq!(frame_allocation(0).unwrap(), 1);
    assert_eq!(frame_allocation(i32::MAX as u64).unwrap(), i32::MAX as usize);
    let (code, message) = frame_allocation(i32::MAX as u64 + 1).unwrap_err();
    assert_eq!(code, ExitCode::Decode);
    assert_eq!(message, "FFmpeg requested an oversized PCM frame");
    assert_eq!(output_failure(true, "gone".into()), (ExitCode::Success, String::new()));
    assert_eq!(output_failure(false, "disk".into()), (ExitCode::ProtocolIo, "disk".to_string()));
}

#[test]
fn helper_failures_name_the_exit_code_and_diagnostic() {
    match exit_error(Some(4), "unsupported media") {
        DecodeError::Message(m) => assert_eq!(m, "bundled helper exited with 4: unsupported media"),
        other => panic!("unexpected {other:?}"),
    }
    match exit_error(None, "") {
        DecodeError::Message(m) => assert_eq!(m, "bundled helper exited with 70: "),
        other => panic!("unexpected {other:?}"),
    }
    match exit_error(Some(-9), "x") {
        DecodeError::Message(m) => assert_eq!(m, "bundled helper exited with -9: x"),
        other => panic!("unexpected {other:?}"),
    }
    assert_eq!(header_error_message("truncated header", ""), "bundled helper protocol error: truncated header");
    assert_eq!(
        header_error_message("truncated header", "no such file"),
        "bundled helper protocol error: truncated header; no such file"
    );
}

#[test]
fn packaged_settings_pin_the_recorded_configuration() {
    let exe = PathBuf::from("/pkg/audio/tz-audio-decoder");
    let config = HelperConfig::from_build_record(exe.clone(), "/pkg/audio/FFMPEG_BUILD.json", Some("--disable-network"))
        .unwrap();
    let expected = HelperConfig::pinned(exe.clone(), "--disable-network");
    assert_eq!(config.executable, exe);
    assert_eq!(config.expected_configuration_hash, expected.expected_configuration_hash);
    for missing in [None, Some("")] {
        match HelperConfig::from_build_record(exe.clone(), "/pkg/audio/FFMPEG_BUILD.json", missing) {
            Err(DecodeError::Message(m)) => assert_eq!(
                m,
                "bundled helper build metadata has no configuration at /pkg/audio/FFMPEG_BUILD.json"
            ),
            other => panic!("unexpected {other:?}"),
        }
    }
}

#[test]
fn relative_paths_become_absolute_without_dots() {
    let abs = absolute_path("../a/./b/..", "/home/u/music");
    assert_eq!(abs, "/home/u/a");
    assert_eq!(absolute_path("..", "/"), "/");
    assert_eq!(absolute_path("", "/home/u"), "/home/u");
}
