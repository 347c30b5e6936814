//! Configuration and checks for the bundled decoder helper process.

use std::collections::BTreeMap;
use std::path::{Path, PathBuf};
use vstd::prelude::*;

use crate::fmt::{decimal, decimal_chars, extend_chars, lower_hex, lower_hex_chars};
use crate::pcm::{DecodeError, PcmSpec};
use crate::analysis::lemma_parse_decimal;
use crate::discovery::{buf_parts, has_prefix_part, has_root_part, PathPart};
use crate::helper_cli::{scan_options, spec_helper_command, spec_parse_u16, spec_parse_u32, DecodeArgs, HelperCommand, OptionScan};
use crate::protocol::{Capabilities, PROTOCOL_MAJOR};
use crate::text::{chars_vec, string_from_chars};
use crate::timespan::TimeSpan;
use vstd::utf8::encode_utf8;

verus! {

/// Bytes of helper diagnostics kept.
pub const MAX_STDERR_BYTES: usize = 65536;

/// Bytes per PCM chunk read from the helper.
pub const PCM_CHUNK_BYTES: usize = 32768;

/// Upper bound of the PCM queue, in bytes.
pub const MAX_PCM_QUEUE_BYTES: usize = 4194304;

/// Audio the PCM queue aims to hold, in milliseconds.
pub const PCM_QUEUE_TARGET_MS: u64 = 500;

/// Where the bundled helper lives.
#[derive(Debug, Clone, PartialEq, Eq)]
pub struct HelperLocation {
    pub path: PathBuf,
    pub package_root: PathBuf,
}

/// How to run the bundled helper.
#[derive(Debug, Clone)]
pub struct HelperConfig {
    pub executable: PathBuf,
    pub startup_timeout: TimeSpan,
    pub pcm_stall_timeout: TimeSpan,
    pub stop_grace: TimeSpan,
    pub expected_configuration_hash: Option<String>,
}

/// Outcome of a non-blocking playback read.
#[derive(Debug, Clone, Copy, PartialEq, Eq)]
pub enum PlaybackRead {
    Data(usize),
    Underrun,
    Eof,
}

/// The build the helper must report, as pinned for this release.
#[derive(Debug, Clone)]
pub struct PinnedBuild {
    pub helper_version: String,
    pub ffmpeg_version: String,
    pub ffmpeg_commit: String,
    pub demuxers: Vec<String>,
    pub decoders: Vec<String>,
    pub library_majors: BTreeMap<String, u32>,
}

/// FNV-1a offset basis and prime (64-bit).
pub const FNV_OFFSET: u64 = 0xcbf29ce484222325;

pub const FNV_PRIME: u64 = 0x100000001b3;

/// One FNV-1a step: xor in the byte, then multiply modulo 2^64.
pub open spec fn fnv_step(hash: u64, byte: u8) -> u64 {
    ((hash ^ (byte as u64)) as nat * FNV_PRIME as nat % 0x1_0000_0000_0000_0000) as u64
}

/// FNV-1a hash of a byte sequence.
pub open spec fn spec_fnv1a(bytes: Seq<u8>) -> u64
    decreases bytes.len(),
{
    if bytes.len() == 0 {
        FNV_OFFSET
    } else {
        fnv_step(spec_fnv1a(bytes.drop_last()), bytes.last())
    }
}

/// 64-bit FNV-1a hash of `bytes`.
pub fn fnv1a(bytes: &[u8]) -> (h: u64)
    ensures
        h == spec_fnv1a(bytes@),
{
    let mut hash: u64 = FNV_OFFSET;
    let mut i: usize = 0;
    while i < bytes.len()
        invariant
            i <= bytes.len(),
            hash == spec_fnv1a(bytes@.take(i as int)),
        decreases bytes.len() - i,
    {
        proof {
            assert(bytes@.take(i + 1).drop_last() =~= bytes@.take(i as int));
        }
        let x = hash ^ (bytes[i] as u64);
        hash = x.wrapping_mul(FNV_PRIME);
        i += 1;
    }
    assert(bytes@.take(bytes.len() as int) =~= bytes@);
    hash
}

/// FNV-1a hash of `bytes` in lower-case hexadecimal without leading zeros.
pub fn fnv1a_hex(bytes: &[u8]) -> (s: String)
    ensures
        s@ == lower_hex(spec_fnv1a(bytes@) as nat),
{
    let h = fnv1a(bytes);
    string_from_chars(&lower_hex_chars(h))
}

/// Bytes of decoded PCM the playback queue may hold: half a second of audio,
/// kept within one chunk and the queue ceiling.
pub open spec fn spec_pcm_queue_bytes(sample_rate: nat, channels: nat) -> nat {
    let want = sample_rate * channels * 4 * 500 / 1000;
    if want < PCM_CHUNK_BYTES {
        PCM_CHUNK_BYTES as nat
    } else if want > MAX_PCM_QUEUE_BYTES {
        MAX_PCM_QUEUE_BYTES as nat
    } else {
        want
    }
}

/// Size of the PCM queue for a stream.
pub fn pcm_queue_bytes(spec: PcmSpec) -> (n: usize)
    ensures
        n == spec_pcm_queue_bytes(spec.sample_rate as nat, spec.channels as nat),
{
    let rate = spec.sample_rate as u64;
    let ch = spec.channels as u64;
    assert(rate * ch <= 4294967295u64 * 65535u64) by (nonlinear_arith)
        requires rate <= 4294967295u64, ch <= 65535u64;
    let want = rate * ch * 4 * PCM_QUEUE_TARGET_MS / 1000;
    if want < PCM_CHUNK_BYTES as u64 {
        PCM_CHUNK_BYTES
    } else if want > MAX_PCM_QUEUE_BYTES as u64 {
        MAX_PCM_QUEUE_BYTES
    } else {
        want as usize
    }
}

/// Chunks the PCM queue holds for a stream: its bytes in whole chunks,
/// rounded up, at least one.
pub fn pcm_queue_chunks(spec: PcmSpec) -> (n: usize)
    ensures
        n == ({
            let b = spec_pcm_queue_bytes(spec.sample_rate as nat, spec.channels as nat);
            let c = (b + PCM_CHUNK_BYTES - 1) / (PCM_CHUNK_BYTES as int);
            if c < 1 { 1 } else { c }
        }),
{
    let bytes = pcm_queue_bytes(spec);
    let chunks = bytes / PCM_CHUNK_BYTES + if bytes % PCM_CHUNK_BYTES == 0 { 0 } else { 1 };
    assert(chunks == (bytes + PCM_CHUNK_BYTES - 1) / (PCM_CHUNK_BYTES as int));
    if chunks < 1 { 1 } else { chunks }
}

/// Whether a path with these components is absolute on the platform the
/// library is built for (`Path::is_absolute`): it has a root in the sense of
/// `Path::has_root` (a root component, or a prefix other than a bare drive
/// letter, which carries a root of its own), and on Windows also a prefix.
pub uninterp spec fn absolute_parts(parts: Seq<PathPart>) -> bool;

/// Whether a path is absolute on this platform (`Path::is_absolute`). On
/// every platform an absolute path has a root component or a prefix, and a
/// path with both is absolute.
#[verifier::external_body]
fn path_is_absolute(path: &PathBuf) -> (r: bool)
    ensures
        r == absolute_parts(buf_parts(*path)),
        r ==> has_root_part(buf_parts(*path)) || has_prefix_part(buf_parts(*path)),
        has_root_part(buf_parts(*path)) && has_prefix_part(buf_parts(*path)) ==> r,
{
    path.is_absolute()
}

/// The position in ms the helper is asked to start decoding at for output
/// frame `start_frame`: `start_frame * 1000` (saturating) over the rate.
pub open spec fn spec_start_ms(start_frame: u64, sample_rate: u32) -> u64 {
    let scaled = if start_frame * 1000 > u64::MAX { u64::MAX as int } else { start_frame * 1000 };
    (scaled / (sample_rate as int)) as u64
}

/// The helper command line (without the program name) for decoding `input`
/// from output frame `start_frame` as `spec`.
pub open spec fn spec_decode_arguments(input: Seq<char>, start_frame: u64, sample_rate: u32, channels: u16) -> Seq<Seq<char>> {
    seq![
        "decode"@, "--input"@, input,
        "--start-ms"@, decimal(spec_start_ms(start_frame, sample_rate) as nat),
        "--sample-rate"@, decimal(sample_rate as nat),
        "--channels"@, decimal(channels as nat),
        "--format"@, "f32le"@,
    ]
}

/// Position of the input path in the decode command line.
pub const DECODE_INPUT_INDEX: usize = 2;

/// The helper command line for decoding `input` from output frame
/// `start_frame` as `spec`. The path is given as text; a caller with a path
/// that is not Unicode puts it at [`DECODE_INPUT_INDEX`] itself.
pub fn decode_arguments(input: &str, start_frame: u64, spec: PcmSpec) -> (r: Vec<String>)
    requires
        spec.sample_rate > 0,
    ensures
        r@.map_values(|a: String| a@) == spec_decode_arguments(input@, start_frame, spec.sample_rate, spec.channels),
{
    let scaled: u64 = if start_frame > u64::MAX / 1000 { u64::MAX } else { start_frame * 1000 };
    let start_ms: u64 = scaled / (spec.sample_rate as u64);
    let mut out: Vec<String> = Vec::new();
    out.push(string_from_chars(&chars_vec("decode")));
    out.push(string_from_chars(&chars_vec("--input")));
    out.push(string_from_chars(&chars_vec(input)));
    out.push(string_from_chars(&chars_vec("--start-ms")));
    out.push(string_from_chars(&decimal_chars(start_ms)));
    out.push(string_from_chars(&chars_vec("--sample-rate")));
    out.push(string_from_chars(&decimal_chars(spec.sample_rate as u64)));
    out.push(string_from_chars(&chars_vec("--channels")));
    out.push(string_from_chars(&decimal_chars(spec.channels as u64)));
    out.push(string_from_chars(&chars_vec("--format")));
    out.push(string_from_chars(&chars_vec("f32le")));
    assert(out@.map_values(|a: String| a@) =~= spec_decode_arguments(input@, start_frame, spec.sample_rate, spec.channels));
    out
}

/// What the player asks for, the helper reads back: the decode command line
/// built for any stereo request parses to that request (input at its
/// position, the start in ms, the rate, two channels); a request for another
/// channel count is refused.
pub proof fn lemma_decode_arguments_round_trip(input: Seq<char>, start_frame: u64, sample_rate: u32, channels: u16)
    requires
        sample_rate > 0,
    ensures
        spec_helper_command(spec_decode_arguments(input, start_frame, sample_rate, channels)) == (if channels == 2 {
            Ok::<HelperCommand, Seq<char>>(HelperCommand::Decode(DecodeArgs {
                input_index: DECODE_INPUT_INDEX,
                start_ms: spec_start_ms(start_frame, sample_rate),
                sample_rate,
                channels: 2,
            }))
        } else {
            Err::<HelperCommand, Seq<char>>("decode requires stereo f32le and a valid start/rate"@)
        }),
{
    reveal_strlit("decode");
    reveal_strlit("capabilities");
    reveal_strlit("--input");
    reveal_strlit("--start-ms");
    reveal_strlit("--sample-rate");
    reveal_strlit("--channels");
    reveal_strlit("--format");
    reveal_strlit("f32le");
    let args = spec_decode_arguments(input, start_frame, sample_rate, channels);
    let start = spec_start_ms(start_frame, sample_rate);
    lemma_parse_decimal(start);
    lemma_parse_decimal(sample_rate as u64);
    lemma_parse_decimal(channels as u64);
    assert(spec_parse_u32(decimal(sample_rate as nat)) == Some(sample_rate));
    assert(spec_parse_u16(decimal(channels as nat)) == Some(channels));
    let s0: OptionScan = (None, None, None, None, None);
    let s1: OptionScan = (Some(2), None, None, None, None);
    let s2: OptionScan = (Some(2), Some(start), None, None, None);
    let s3: OptionScan = (Some(2), Some(start), Some(sample_rate), None, None);
    let s4: OptionScan = (Some(2), Some(start), Some(sample_rate), Some(channels), None);
    let s5: OptionScan = (Some(2), Some(start), Some(sample_rate), Some(channels), Some(true));
    assert(args[1] == "--input"@);
    assert(args[3] == "--start-ms"@);
    assert(args[5] == "--sample-rate"@);
    assert(args[7] == "--channels"@);
    assert(args[9] == "--format"@);
    assert(args[10] == "f32le"@);
    assert("--format"@.len() != "--input"@.len() && "--format"@.len() != "--start-ms"@.len()
        && "--format"@.len() != "--sample-rate"@.len() && "--format"@.len() != "--channels"@.len());
    assert("--channels"@[2] != "--start-ms"@[2]);
    assert("--channels"@ != "--start-ms"@);
    assert("--channels"@.len() != "--input"@.len() && "--channels"@.len() != "--sample-rate"@.len());
    assert("decode"@.len() != "capabilities"@.len());
    assert(scan_options(args, 11, s5) == Ok::<OptionScan, Seq<char>>(s5));
    assert(scan_options(args, 9, s4) == scan_options(args, 11, s5));
    assert(scan_options(args, 7, s3) == scan_options(args, 9, s4));
    assert(scan_options(args, 5, s2) == scan_options(args, 7, s3));
    assert(scan_options(args, 3, s1) == scan_options(args, 5, s2));
    assert(scan_options(args, 1, s0) == scan_options(args, 3, s1));
    assert(args[0] == "decode"@);
    assert(args[0] != "capabilities"@);
}

/// Default launch settings for an executable.
fn default_config(executable: PathBuf, expected: Option<String>) -> (c: HelperConfig)
    ensures
        c.executable == executable,
        c.startup_timeout.nanos() == 5_000_000_000,
        c.pcm_stall_timeout.nanos() == 5_000_000_000,
        c.stop_grace.nanos() == 2_000_000_000,
        c.expected_configuration_hash == expected,
{
    HelperConfig {
        executable,
        startup_timeout: TimeSpan::from_secs(5),
        pcm_stall_timeout: TimeSpan::from_secs(5),
        stop_grace: TimeSpan::from_secs(2),
        expected_configuration_hash: expected,
    }
}

impl HelperConfig {
    /// Settings for an explicitly given helper executable, which must be an
    /// absolute path; no build configuration is pinned.
    pub fn injected(executable: PathBuf) -> (r: Result<HelperConfig, DecodeError>)
        ensures
            r is Ok <==> absolute_parts(buf_parts(executable)),
            r is Ok ==> has_root_part(buf_parts(executable)) || has_prefix_part(buf_parts(executable)),
            has_root_part(buf_parts(executable)) && has_prefix_part(buf_parts(executable)) ==> r is Ok,
            r matches Ok(c) ==> c.executable == executable && c.startup_timeout.nanos()
                == 5_000_000_000 && c.pcm_stall_timeout.nanos() == 5_000_000_000
                && c.stop_grace.nanos() == 2_000_000_000 && c.spec_expected_hash() is None,
            r matches Err(e) ==> (e matches DecodeError::Message(m) && m@
                == "helper path must be absolute"@),
    {
        if !path_is_absolute(&executable) {
            return Err(DecodeError::Message(string_from_chars(&chars_vec("helper path must be absolute"))));
        }
        Ok(default_config(executable, None))
    }

    /// Settings for the packaged helper, pinned to the FNV-1a hash of the
    /// FFmpeg configuration recorded with the package.
    pub fn pinned(executable: PathBuf, configuration: &str) -> (c: HelperConfig)
        ensures
            c.executable == executable,
            c.startup_timeout.nanos() == 5_000_000_000,
            c.pcm_stall_timeout.nanos() == 5_000_000_000,
            c.stop_grace.nanos() == 2_000_000_000,
            c.spec_expected_hash() matches Some(h) && h@ == lower_hex(
                spec_fnv1a(encode_utf8(configuration@)) as nat,
            ),
    {
        let hash = fnv1a_hex(configuration.as_bytes());
        default_config(executable, Some(hash))
    }

    /// Settings for the packaged helper at `executable` from the
    /// `configuration` entry of its build record (`build_record` names the
    /// record in messages): pinned to that configuration when it is a
    /// non-empty text, refused otherwise.
    pub fn from_build_record(executable: PathBuf, build_record: &str, configuration: Option<&str>) -> (r: Result<HelperConfig, DecodeError>)
        ensures
            match configuration {
                Some(c) => if c@.len() > 0 {
                    r matches Ok(cfg) && cfg.executable == executable && (cfg.spec_expected_hash() matches Some(h)
                        && h@ == lower_hex(spec_fnv1a(encode_utf8(c@)) as nat))
                } else {
                    r matches Err(DecodeError::Message(m)) && m@ == "bundled helper build metadata has no configuration at "@ + build_record@
                },
                None => r matches Err(DecodeError::Message(m)) && m@ == "bundled helper build metadata has no configuration at "@ + build_record@,
            },
    {
        match configuration {
            Some(c) => {
                if c.unicode_len() > 0 {
                    return Ok(HelperConfig::pinned(executable, c));
                }
            },
            None => {},
        }
        let mut text = chars_vec("bundled helper build metadata has no configuration at ");
        extend_chars(&mut text, &chars_vec(build_record));
        Err(DecodeError::Message(string_from_chars(&text)))
    }

    /// The pinned configuration hash, if any.
    pub open spec fn spec_expected_hash(&self) -> Option<String> {
        self.expected_configuration_hash
    }

    /// The pinned configuration hash, if any.
    pub fn expected_configuration_hash(&self) -> (r: Option<&String>)
        ensures
            r matches Some(h) ==> self.spec_expected_hash() == Some(*h),
            r is None ==> self.spec_expected_hash() is None,
    {
        match &self.expected_configuration_hash {
            Some(h) => Some(h),
            None => None,
        }
    }
}

/// ASCII hexadecimal digits.
pub open spec fn is_hex_byte(b: u8) -> bool {
    (48 <= b <= 57) || (65 <= b <= 70) || (97 <= b <= 102)
}

/// ASCII lower-casing of a byte.
pub open spec fn ascii_lower_byte(b: u8) -> u8 {
    if 65 <= b <= 90 { (b + 32) as u8 } else { b }
}

/// Byte strings equal up to ASCII case (`str::eq_ignore_ascii_case`).
pub open spec fn eq_ignore_ascii_case(a: Seq<u8>, b: Seq<u8>) -> bool {
    a.len() == b.len() && forall|i: int| 0 <= i < a.len() ==> ascii_lower_byte(a[i])
        == ascii_lower_byte(b[i])
}

/// Which check a helper's capability report fails, if any: 0 protocol
/// major, 1 pinned build, 2 malformed configuration hash, 3 configuration
/// different from the packaged one.
pub open spec fn spec_capabilities_fault(
    expected: Option<String>,
    caps: Capabilities,
    pins: PinnedBuild,
) -> Option<u8> {
    if caps.protocol_major != PROTOCOL_MAJOR {
        Some(0)
    } else if caps.helper_version@ != pins.helper_version@ || caps.ffmpeg_version@
        != pins.ffmpeg_version@ || caps.ffmpeg_commit@ != pins.ffmpeg_commit@
        || caps.demuxers.deep_view() != pins.demuxers.deep_view() || caps.decoders.deep_view()
        != pins.decoders.deep_view() || caps.library_majors.deep_view()
        != pins.library_majors.deep_view() {
        Some(1)
    } else if encode_utf8(caps.configuration_hash@).len() == 0 || exists|i: int|
        0 <= i < encode_utf8(caps.configuration_hash@).len() && !is_hex_byte(
            #[trigger] encode_utf8(caps.configuration_hash@)[i],
        ) {
        Some(2)
    } else if expected matches Some(e) && !eq_ignore_ascii_case(
        encode_utf8(caps.configuration_hash@),
        encode_utf8(e@),
    ) {
        Some(3)
    } else {
        None
    }
}

/// Map equality (`BTreeMap::eq`): the same keys with the same values.
#[verifier::external_body]
fn same_library_majors(a: &BTreeMap<String, u32>, b: &BTreeMap<String, u32>) -> (r: bool)
    ensures
        r == (a.deep_view() == b.deep_view()),
{
    a == b
}

fn same_strings(a: &Vec<String>, b: &Vec<String>) -> (r: bool)
    ensures
        r == (a.deep_view() == b.deep_view()),
{
    if a.len() != b.len() {
        assert(a.deep_view().len() != b.deep_view().len());
        return false;
    }
    let mut i: usize = 0;
    while i < a.len()
        invariant
            i <= a.len(),
            a.len() == b.len(),
            forall|j: int| 0 <= j < i ==> a.deep_view()[j] == b.deep_view()[j],
        decreases a.len() - i,
    {
        if a[i] != b[i] {
            assert(a.deep_view()[i as int] != b.deep_view()[i as int]);
            return false;
        }
        i += 1;
    }
    assert(a.deep_view() =~= b.deep_view());
    true
}

fn all_hex_bytes(s: &[u8]) -> (r: bool)
    ensures
        r == (forall|i: int| 0 <= i < s@.len() ==> is_hex_byte(#[trigger] s@[i])),
{
    let mut i: usize = 0;
    while i < s.len()
        invariant
            i <= s.len(),
            forall|j: int| 0 <= j < i ==> is_hex_byte(#[trigger] s@[j]),
        decreases s.len() - i,
    {
        let b = s[i];
        if !((48 <= b && b <= 57) || (65 <= b && b <= 70) || (97 <= b && b <= 102)) {
            return false;
        }
        i += 1;
    }
    true
}

fn lower_byte(b: u8) -> (r: u8)
    ensures
        r == ascii_lower_byte(b),
{
    if 65 <= b && b <= 90 { b + 32 } else { b }
}

fn bytes_eq_ignore_ascii_case(a: &[u8], b: &[u8]) -> (r: bool)
    ensures
        r == eq_ignore_ascii_case(a@, b@),
{
    if a.len() != b.len() {
        return false;
    }
    let mut i: usize = 0;
    while i < a.len()
        invariant
            i <= a.len(),
            a.len() == b.len(),
            forall|j: int| 0 <= j < i ==> ascii_lower_byte(#[trigger] a@[j]) == ascii_lower_byte(b@[j]),
        decreases a.len() - i,
    {
        if lower_byte(a[i]) != lower_byte(b[i]) {
            return false;
        }
        i += 1;
    }
    true
}

/// The message for a helper speaking another protocol major.
pub open spec fn major_mismatch_message(major: u16) -> Seq<char> {
    "bundled helper protocol major "@ + decimal(major as nat) + " is incompatible with "@ + decimal(
        PROTOCOL_MAJOR as nat,
    )
}

/// Checks a helper's capability report against the protocol, the pinned
/// build and, when pinned, the packaged configuration hash.
pub fn validate_capabilities(config: &HelperConfig, capabilities: &Capabilities, pins: &PinnedBuild) -> (r:
    Result<(), DecodeError>)
    ensures
        r is Ok <==> spec_capabilities_fault(config.spec_expected_hash(), *capabilities, *pins) is None,
        spec_capabilities_fault(config.spec_expected_hash(), *capabilities, *pins) == Some(0u8) ==> (r matches Err(
            DecodeError::Message(m),
        ) && m@ == major_mismatch_message(capabilities.protocol_major)),
        spec_capabilities_fault(config.spec_expected_hash(), *capabilities, *pins) == Some(1u8) ==> (r matches Err(
            DecodeError::Message(m),
        ) && m@ == "bundled helper capabilities do not match the pinned FFmpeg manifest"@),
        spec_capabilities_fault(config.spec_expected_hash(), *capabilities, *pins) == Some(2u8) ==> (r matches Err(
            DecodeError::Message(m),
        ) && m@ == "bundled helper capabilities have an invalid configuration hash"@),
        spec_capabilities_fault(config.spec_expected_hash(), *capabilities, *pins) == Some(3u8) ==> (r matches Err(
            DecodeError::Message(m),
        ) && m@ == "bundled helper configuration does not match FFMPEG_BUILD.json"@),
{
    if capabilities.protocol_major != PROTOCOL_MAJOR {
        let mut msg = chars_vec("bundled helper protocol major ");
        extend_chars(&mut msg, &decimal_chars(capabilities.protocol_major as u64));
        extend_chars(&mut msg, &chars_vec(" is incompatible with "));
        extend_chars(&mut msg, &decimal_chars(PROTOCOL_MAJOR as u64));
        return Err(DecodeError::Message(string_from_chars(&msg)));
    }
    if capabilities.helper_version != pins.helper_version || capabilities.ffmpeg_version
        != pins.ffmpeg_version || capabilities.ffmpeg_commit != pins.ffmpeg_commit || !same_strings(
        &capabilities.demuxers,
        &pins.demuxers,
    ) || !same_strings(&capabilities.decoders, &pins.decoders) || !same_library_majors(
        &capabilities.library_majors,
        &pins.library_majors,
    ) {
        return Err(
            DecodeError::Message(
                string_from_chars(&chars_vec("bundled helper capabilities do not match the pinned FFmpeg manifest")),
            ),
        );
    }
    let hash_bytes = capabilities.configuration_hash.as_str().as_bytes();
    if hash_bytes.len() == 0 || !all_hex_bytes(hash_bytes) {
        return Err(
            DecodeError::Message(
                string_from_chars(&chars_vec("bundled helper capabilities have an invalid configuration hash")),
            ),
        );
    }
    if let Some(expected) = config.expected_configuration_hash() {
        if !bytes_eq_ignore_ascii_case(hash_bytes, expected.as_str().as_bytes()) {
            return Err(
                DecodeError::Message(
                    string_from_chars(&chars_vec("bundled helper configuration does not match FFMPEG_BUILD.json")),
                ),
            );
        }
    }
    Ok(())
}

} // verus!
