use std::collections::BTreeMap;
use std::path::{Path, PathBuf};

use tz_player::discovery::{helper_file_name, package_helper_path, package_root_path, HELPER_FILE_NAME};
use tz_player::helper::{
    fnv1a, fnv1a_hex, pcm_queue_bytes, validate_capabilities, HelperConfig, PinnedBuild,
    MAX_PCM_QUEUE_BYTES, PCM_CHUNK_BYTES,
};
use tz_player::helper_cli::{parse_decode_args, parse_helper_command, DecodeArgs, HelperCommand};
use tz_player::pcm::{duration_to_frames, frames_to_duration, DecodeError, PcmSpec};
use tz_player::protocol::{
    check_received_header, frame_header_payload, sanitize_diagnostic, unframe_header_payload,
    validate_header, validate_request, Capabilities, DecodeHeader, DecodeRequest, ExitCode,
    ProtocolError, SampleFormat, MAX_HEADER_BYTES, PROTOCOL_MAJOR, PROTOCOL_MINOR,
};
use tz_player::seek_trim::{div_floor, LeadingTrim};
use tz_player::sniff::{helper_only_family, HelperOnlyFamily};
use tz_player::timespan::TimeSpan;

fn request() -> DecodeRequest {
    DecodeRequest {
        sample_rate: 48_000,
        channels: 2,
        format: SampleFormat::F32le,
        start_frame: 0,
    }
}

fn header() -> DecodeHeader {
    DecodeHeader {
        protocol_major: 1,
        protocol_minor: 99,
        sample_format: SampleFormat::F32le,
        sample_rate: 48_000,
        channels: 2,
        duration_frames: None,
        start_frame: 0,
    }
}

fn framed(bytes: &[u8]) -> Vec<u8> {
    let mut output = Vec::with_capacity(4 + bytes.len());
    output.extend_from_slice(&u32::try_from(bytes.len()).unwrap().to_le_bytes());
    output.extend_from_slice(bytes);
    output
}

#[test]
fn helper_is_relative_to_executable_audio_directory() {
    let executable = Path::new("/package/tz-player.app/Contents/MacOS/tz-player");
    let path = package_helper_path(executable, helper_file_name(false), true);
    assert!(path.ends_with(Path::new("audio").join("tz-audio-decoder")));
    assert!(path.starts_with("/package/tz-player.app/Contents/Resources"));

    let executable = Path::new(r"C:\package\tz-player.exe");
    let path = package_helper_path(executable, helper_file_name(true), false);
    assert!(path.ends_with(Path::new("audio").join("tz-audio-decoder.exe")));
    let path = package_helper_path(executable, helper_file_name(false), false);
    assert!(path.ends_with(Path::new("audio").join("tz-audio-decoder")));
}

#[test]
fn helper_sits_in_audio_folder_beside_the_executable() {
    let path = package_helper_path(Path::new("/opt/tz/tz-player"), HELPER_FILE_NAME, false);
    assert_eq!(path, PathBuf::from("/opt/tz/audio").join(HELPER_FILE_NAME));
    assert_eq!(package_root_path(Path::new("/opt/tz/tz-player"), false), PathBuf::from("/opt/tz"));
    assert_eq!(package_root_path(Path::new("/opt/tz/tz-player"), true), PathBuf::from("/opt/tz"));
    assert_eq!(package_root_path(Path::new("/"), false), PathBuf::from("."));
}

#[test]
fn bundle_root_is_contents_resources_only_in_a_bundle_layout() {
    let exe = Path::new("/Applications/tz.app/Contents/MacOS/tz-player");
    assert_eq!(package_root_path(exe, true), PathBuf::from("/Applications/tz.app/Contents/Resources"));
    assert_eq!(package_root_path(exe, false), PathBuf::from("/Applications/tz.app/Contents/MacOS"));
    assert_eq!(
        package_helper_path(exe, HELPER_FILE_NAME, true),
        PathBuf::from("/Applications/tz.app/Contents/Resources/audio/tz-audio-decoder")
    );
    assert_eq!(package_root_path(Path::new("/x/contents/MacOS/tz"), true), PathBuf::from("/x/contents/MacOS"));
}

#[test]
fn helper_of_a_bare_executable_name_is_relative() {
    assert_eq!(package_root_path(Path::new("tz-player"), false), PathBuf::from(""));
    assert_eq!(
        package_helper_path(Path::new("tz-player"), HELPER_FILE_NAME, false),
        PathBuf::from("audio").join(HELPER_FILE_NAME)
    );
    assert_eq!(package_root_path(Path::new("./tz-player"), false), PathBuf::from("."));
}

#[test]
fn frame_time_conversion_is_bounded() {
    let frames = duration_to_frames(TimeSpan::from_secs(2), 48_000);
    assert_eq!(frames, 96_000);
    assert_eq!(frames_to_duration(frames, 48_000), TimeSpan::from_secs(2));
}

#[test]
fn frame_conversion_rounds_down_and_saturates() {
    assert_eq!(duration_to_frames(TimeSpan::from_millis(1), 44_100), 44);
    assert_eq!(duration_to_frames(TimeSpan::new(u64::MAX, 999_999_999), u32::MAX), u64::MAX);
    assert_eq!(frames_to_duration(1, 3).as_nanos(), 333_333_333);
    assert_eq!(frames_to_duration(5, 0), TimeSpan::zero());
}

#[test]
fn pcm_spec_requires_rate_and_one_to_thirty_two_channels() {
    assert!(PcmSpec::new(48_000, 2).is_ok());
    assert!(PcmSpec::new(48_000, 32).is_ok());
    assert!(matches!(PcmSpec::new(0, 2), Err(DecodeError::InvalidPcmSpec)));
    assert!(matches!(PcmSpec::new(48_000, 0), Err(DecodeError::InvalidPcmSpec)));
    assert!(matches!(PcmSpec::new(48_000, 33), Err(DecodeError::InvalidPcmSpec)));
    assert_eq!(PcmSpec::new(44_100, 6).unwrap().frame_samples(), 6);
}

#[test]
fn decode_error_messages_match_their_variants() {
    assert_eq!(DecodeError::InvalidPcmSpec.message(), "invalid PCM specification");
    assert_eq!(DecodeError::InvalidSample.message(), "invalid PCM sample");
    assert_eq!(DecodeError::UnalignedBuffer.message(), "PCM buffer is not frame-aligned");
    assert_eq!(DecodeError::Message("boom".into()).message(), "decode failed: boom");
}

#[test]
fn playback_queue_targets_half_a_second_and_stays_bounded() {
    let spec = PcmSpec::new(48_000, 2).unwrap();
    assert_eq!(pcm_queue_bytes(spec), 192_000);
    assert!(pcm_queue_bytes(spec) <= MAX_PCM_QUEUE_BYTES);
    assert!(
        pcm_queue_bytes(spec)
            <= spec.sample_rate as usize * spec.frame_samples() * std::mem::size_of::<f32>() * 2
    );
}

#[test]
fn playback_queue_is_clamped_to_chunk_and_ceiling() {
    assert_eq!(pcm_queue_bytes(PcmSpec::new(8_000, 1).unwrap()), PCM_CHUNK_BYTES);
    assert_eq!(pcm_queue_bytes(PcmSpec::new(768_000, 32).unwrap()), MAX_PCM_QUEUE_BYTES);
}

#[test]
fn rejects_major_mismatch() {
    let mut value = header();
    value.protocol_major = PROTOCOL_MAJOR + 1;
    assert!(matches!(
        check_received_header(&value, &request()),
        Err(ProtocolError::MajorMismatch(2))
    ));
    assert!(matches!(validate_header(&value), Err(ProtocolError::MajorMismatch(2))));
}

#[test]
fn malformed_lengths_are_bounded() {
    let bytes = (MAX_HEADER_BYTES as u32 + 1).to_le_bytes().to_vec();
    assert!(matches!(unframe_header_payload(&bytes), Err(ProtocolError::Oversized)));
}

#[test]
fn truncated_and_invalid_json_are_rejected() {
    assert!(matches!(unframe_header_payload(&vec![1, 2, 3]), Err(ProtocolError::Truncated)));
    let payload = br#"{"protocol_major":1}"#;
    let mut truncated = u32::try_from(payload.len() + 1).unwrap().to_le_bytes().to_vec();
    truncated.extend_from_slice(payload);
    assert!(matches!(unframe_header_payload(&truncated), Err(ProtocolError::Truncated)));
}

#[test]
fn invalid_rate_channels_format_and_duration_are_rejected() {
    for (sample_rate, channels) in [(0, 2), (48_000, 0), (48_000, 33)] {
        let mut value = header();
        value.sample_rate = sample_rate;
        value.channels = channels;
        assert!(matches!(
            check_received_header(&value, &request()),
            Err(ProtocolError::Invalid(_))
        ));
    }
    let mut invalid_duration = header();
    invalid_duration.duration_frames = Some(10);
    invalid_duration.start_frame = 11;
    assert!(matches!(
        check_received_header(&invalid_duration, &request()),
        Err(ProtocolError::Invalid(_))
    ));
}

#[test]
fn request_and_header_mismatches_are_rejected() {
    let mut value = header();
    value.sample_rate = 44_100;
    assert!(matches!(
        check_received_header(&value, &request()),
        Err(ProtocolError::RequestMismatch(_))
    ));
    let mut value = header();
    value.channels = 1;
    assert!(matches!(
        check_received_header(&value, &request()),
        Err(ProtocolError::RequestMismatch(_))
    ));
    let mut value = header();
    value.start_frame = 1;
    assert!(matches!(
        validate_request(&value, &request()),
        Err(ProtocolError::RequestMismatch(_))
    ));
    assert!(check_received_header(&header(), &request()).is_ok());
}

#[test]
fn framing_round_trips_the_payload() {
    let payload = br#"{"protocol_major":1}"#.to_vec();
    let bytes = frame_header_payload(&payload).unwrap();
    assert_eq!(bytes, framed(&payload));
    let (back, consumed) = unframe_header_payload(&bytes).unwrap();
    assert_eq!(back, payload);
    assert_eq!(consumed, bytes.len());
    let oversized = vec![b' '; MAX_HEADER_BYTES + 1];
    assert!(matches!(frame_header_payload(&oversized), Err(ProtocolError::Oversized)));
}

#[test]
fn protocol_error_messages_match_their_variants() {
    assert_eq!(ProtocolError::Truncated.message(), "protocol header is truncated");
    assert_eq!(ProtocolError::Oversized.message(), "protocol header exceeds 65536 bytes");
    assert_eq!(ProtocolError::MajorMismatch(2).message(), "protocol major 2 is not supported");
    assert_eq!(ProtocolError::Json("x".into()).message(), "invalid protocol JSON: x");
    assert_eq!(ProtocolError::Io("pipe".into()).message(), "protocol I/O: pipe");
}

#[test]
fn exit_codes_have_fixed_numbers() {
    assert_eq!(ExitCode::Success.code(), 0);
    assert_eq!(ExitCode::InvalidArguments.code(), 2);
    assert_eq!(ExitCode::ProtocolIo.code(), 7);
    assert_eq!(ExitCode::Internal.code(), 70);
}

#[test]
fn diagnostics_are_unicode_safe() {
    let output = sanitize_diagnostic("ok\u{1b}[31m\u{1f600}", 6);
    assert!(!output.contains('\u{1b}'));
    assert!(output.starts_with("ok"));
}

#[test]
fn diagnostics_drop_escapes_replace_controls_and_trim() {
    assert_eq!(sanitize_diagnostic("  bad\u{1b}]0;title\u{7} input\r\n", 1024), "bad input");
    assert_eq!(sanitize_diagnostic("abc\u{1f600}", 5), "abc");
    assert_eq!(sanitize_diagnostic("a\tb", 64), "a b");
}

#[test]
fn fnv1a_matches_reference_values() {
    assert_eq!(fnv1a(b""), 0xcbf2_9ce4_8422_2325);
    assert_eq!(fnv1a(b"a"), 0xaf63_dc4c_8601_ec8c);
    assert_eq!(fnv1a_hex(b"a"), "af63dc4c8601ec8c");
}

fn capabilities() -> Capabilities {
    Capabilities {
        helper_version: "1.2.3".into(),
        protocol_major: PROTOCOL_MAJOR,
        protocol_minor: PROTOCOL_MINOR,
        ffmpeg_version: "7.1.5".into(),
        ffmpeg_commit: "7.1.5".into(),
        configuration_hash: fnv1a_hex(b"--disable-network"),
        library_majors: BTreeMap::from([("avcodec".to_string(), 61), ("avutil".to_string(), 59)]),
        demuxers: vec!["wav".into()],
        decoders: vec!["pcm_s16le".into()],
    }
}

fn pins() -> PinnedBuild {
    PinnedBuild {
        helper_version: "1.2.3".into(),
        ffmpeg_version: "7.1.5".into(),
        ffmpeg_commit: "7.1.5".into(),
        demuxers: vec!["wav".into()],
        decoders: vec!["pcm_s16le".into()],
        library_majors: BTreeMap::from([("avcodec".to_string(), 61), ("avutil".to_string(), 59)]),
    }
}

fn message_of(result: Result<(), DecodeError>) -> String {
    match result {
        Err(DecodeError::Message(m)) => m,
        other => panic!("unexpected {other:?}"),
    }
}

#[test]
fn matching_capabilities_are_accepted() {
    let config = HelperConfig::pinned(PathBuf::from("/pkg/audio/tz-audio-decoder"), "--disable-network");
    assert!(validate_capabilities(&config, &capabilities(), &pins()).is_ok());
    let mut upper = capabilities();
    upper.configuration_hash = upper.configuration_hash.to_ascii_uppercase();
    assert!(validate_capabilities(&config, &upper, &pins()).is_ok());
}

#[test]
fn incompatible_and_wrong_build_capabilities_fail_closed() {
    let config = HelperConfig::pinned(PathBuf::from("/pkg/audio/tz-audio-decoder"), "--disable-network");
    let mut major = capabilities();
    major.protocol_major = 9;
    assert_eq!(
        message_of(validate_capabilities(&config, &major, &pins())),
        "bundled helper protocol major 9 is incompatible with 1"
    );
    let mut majors = capabilities();
    majors.library_majors.insert("avformat".into(), 61);
    assert_eq!(
        message_of(validate_capabilities(&config, &majors, &pins())),
        "bundled helper capabilities do not match the pinned FFmpeg manifest"
    );
    let mut hash = capabilities();
    hash.configuration_hash = "not-hex".into();
    assert_eq!(
        message_of(validate_capabilities(&config, &hash, &pins())),
        "bundled helper capabilities have an invalid configuration hash"
    );
    let other = HelperConfig::pinned(PathBuf::from("/pkg/audio/tz-audio-decoder"), "--enable-gpl");
    assert_eq!(
        message_of(validate_capabilities(&other, &capabilities(), &pins())),
        "bundled helper configuration does not match FFMPEG_BUILD.json"
    );
}

#[test]
fn startup_timeout_and_relative_injection_are_rejected() {
    match HelperConfig::injected(PathBuf::from("relative/helper")) {
        Err(DecodeError::Message(m)) => assert_eq!(m, "helper path must be absolute"),
        other => panic!("unexpected {other:?}"),
    }
    let config = HelperConfig::injected(PathBuf::from("/abs/helper")).unwrap();
    assert!(config.expected_configuration_hash().is_none());
    assert_eq!(config.startup_timeout, TimeSpan::from_secs(5));
}

#[test]
fn helper_only_detection_uses_content_not_filename_extensions() {
    assert_eq!(helper_only_family(b"MAC \x96\x0f"), Some(HelperOnlyFamily::MonkeysAudio));
    assert_eq!(helper_only_family(b"wvpk...."), Some(HelperOnlyFamily::WavPack));
    assert_eq!(helper_only_family(b"TTA1"), Some(HelperOnlyFamily::Tta));
    assert_eq!(helper_only_family(b"MP+\x07"), Some(HelperOnlyFamily::Musepack));
    let mut ogg = b"OggS\x00\x02".to_vec();
    ogg.extend_from_slice(b"....OpusHead....");
    assert_eq!(helper_only_family(&ogg), Some(HelperOnlyFamily::OggOpus));
    let mut speex = b"OggS\x00\x02".to_vec();
    speex.extend_from_slice(b"Speex   1.2");
    assert_eq!(helper_only_family(&speex), Some(HelperOnlyFamily::OggSpeex));
    assert_eq!(helper_only_family(b"OggS\x00\x02vorbis"), None);
    assert_eq!(helper_only_family(&[0x0b, 0x77, 0x00]), Some(HelperOnlyFamily::Ac3));
    assert_eq!(helper_only_family(&[0xff, 0x1f, 0x00, 0xe8]), Some(HelperOnlyFamily::Dts));
    assert_eq!(helper_only_family(b"RIFF....WAVE"), None);
    assert_eq!(HelperOnlyFamily::AsfWma.name(), "ASF/WMA");
    assert_eq!(HelperOnlyFamily::Ac3.name(), "AC-3/E-AC-3");
}

fn args(list: &[&str]) -> Vec<String> {
    list.iter().map(|s| s.to_string()).collect()
}

#[test]
fn helper_command_line_is_checked_before_decoding() {
    assert_eq!(parse_helper_command(&args(&["capabilities", "--json"])), Ok(HelperCommand::Capabilities));
    let usage = parse_helper_command(&args(&["capabilities"])).unwrap_err();
    assert_eq!(usage.0, ExitCode::InvalidArguments);
    assert_eq!(usage.1, "usage: capabilities --json");
    let decode = args(&[
        "decode", "--input", "/m/a b.flac", "--start-ms", "1500", "--sample-rate", "48000",
        "--channels", "2", "--format", "f32le",
    ]);
    assert_eq!(
        parse_helper_command(&decode),
        Ok(HelperCommand::Decode(DecodeArgs {
            input_index: 2,
            start_ms: 1500,
            sample_rate: 48_000,
            channels: 2
        }))
    );
    assert!(parse_helper_command(&args(&["play"])).unwrap_err().1.starts_with("usage: capabilities --json | decode"));
}

#[test]
fn malformed_decode_arguments_are_rejected() {
    let missing = parse_decode_args(&args(&["decode", "--input"])).unwrap_err();
    assert_eq!(missing.1, "missing decode argument");
    let unknown = parse_decode_args(&args(&["decode", "--speed", "2"])).unwrap_err();
    assert_eq!(unknown.1, "unknown decode argument");
    let no_input = parse_decode_args(&args(&["decode", "--sample-rate", "48000"])).unwrap_err();
    assert_eq!(no_input.1, "--input is required");
    let bad_rate = parse_decode_args(&args(&["decode", "--input", "x", "--sample-rate", "fast"])).unwrap_err();
    assert_eq!(bad_rate.1, "--sample-rate is invalid");
    let mono = parse_decode_args(&args(&[
        "decode", "--input", "x", "--start-ms", "0", "--sample-rate", "48000", "--channels", "1",
        "--format", "f32le",
    ]))
    .unwrap_err();
    assert_eq!(mono.1, "decode requires stereo f32le and a valid start/rate");
    assert_eq!(mono.0, ExitCode::InvalidArguments);
}

#[test]
fn seek_discards_leading_pcm_at_the_requested_output_frame() {
    let mut trim = LeadingTrim::new(1_000, 0, (1, 48_000), 48_000, 0);
    trim.begin_decoded_frame(Some(400)).unwrap();
    assert_eq!(trim.next_frame, Some(400));
    assert_eq!(trim.skip_for(256), 256);
    assert_eq!(trim.skip_for(512), 344);
    assert_eq!(trim.skip_for(512), 0);
    let mut untimed = LeadingTrim::new(10, 0, (1, 1_000), 48_000, 0);
    let error = untimed.begin_decoded_frame(None).unwrap_err();
    assert_eq!(error.0, ExitCode::Decode);
}

#[test]
fn floor_division_rounds_toward_negative_infinity() {
    assert_eq!(div_floor(7, 2), 3);
    assert_eq!(div_floor(-7, 2), -4);
    assert_eq!(div_floor(-8, 2), -4);
    assert_eq!(div_floor(i128::MIN, 1), i128::MIN);
}
