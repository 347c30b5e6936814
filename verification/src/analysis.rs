//! Offline analysis for the visualizers: which analyses exist, their errors,
//! the resource limits a decode runs under and how they are read from
//! settings, and the window sizes of the spectrum analysis.

use vstd::prelude::*;

use crate::fmt::{decimal, decimal_chars};
use crate::pcm::DecodeError;
use crate::text::{append_chars, append_str, chars_vec, concat_str, string_from_str};
use crate::timespan::TimeSpan;

verus! {

/// Sample rate of the mono signal analysed for spectrum and beats.
pub const MONO_TARGET_RATE: u32 = 11_025;

/// Sample rate of the stereo signal analysed for envelopes and waveforms.
pub const STEREO_TARGET_RATE: u32 = 44_100;

/// Bytes of one decoded stereo frame (two 32-bit samples).
pub const PCM_FRAME_BYTES: usize = 8;

pub const DEFAULT_MAX_DECODED_BYTES: usize = 268_435_456;

pub const HARD_MAX_DECODED_BYTES: usize = 1_073_741_824;

pub const DEFAULT_MAX_DURATION_SECS: u64 = 3_600;

pub const HARD_MAX_DURATION_SECS: u64 = 21_600;

pub const DEFAULT_TIMEOUT_SECS: u64 = 120;

pub const HARD_MAX_TIMEOUT_SECS: u64 = 900;

/// Setting that overrides the decoded-byte limit.
pub const MAX_DECODED_BYTES_SETTING: &'static str = "TZ_PLAYER_ANALYSIS_MAX_DECODED_BYTES";

/// Setting that overrides the duration limit, in seconds.
pub const MAX_DURATION_SETTING: &'static str = "TZ_PLAYER_ANALYSIS_MAX_DURATION_SECS";

/// Setting that overrides the decode time limit, in seconds.
pub const TIMEOUT_SETTING: &'static str = "TZ_PLAYER_ANALYSIS_TIMEOUT_SECS";

/// High-level analysis capabilities.
#[derive(Debug, Clone, Copy, PartialEq, Eq, Structural)]
pub enum AnalysisKind {
    ScalarEnvelope,
    Spectrum,
    Beat,
    WaveformProxy,
}

/// Analysis failures; none of them stops playback.
#[derive(Debug)]
pub enum AnalysisError {
    NotFound(String),
    Decode(String),
    FfmpegUnavailable,
    Unsupported(String),
    Message(String),
    Timeout(String),
    ResourceLimit(String),
}

impl AnalysisError {
    /// The error's user-facing text.
    pub fn message(&self) -> (r: String)
        ensures
            r@ == match self {
                AnalysisError::NotFound(m) => "file not found: "@ + m@,
                AnalysisError::Decode(m) => "decode failed: "@ + m@,
                AnalysisError::FfmpegUnavailable => "FFmpeg unavailable"@,
                AnalysisError::Unsupported(m) => "unsupported format for analysis: "@ + m@,
                AnalysisError::Message(m) => m@,
                AnalysisError::Timeout(m) => m@,
                AnalysisError::ResourceLimit(m) => m@,
            },
    {
        match self {
            AnalysisError::NotFound(m) => concat_str("file not found: ", m.as_str()),
            AnalysisError::Decode(m) => concat_str("decode failed: ", m.as_str()),
            AnalysisError::FfmpegUnavailable => string_from_str("FFmpeg unavailable"),
            AnalysisError::Unsupported(m) => concat_str("unsupported format for analysis: ", m.as_str()),
            AnalysisError::Message(m) => string_from_str(m.as_str()),
            AnalysisError::Timeout(m) => string_from_str(m.as_str()),
            AnalysisError::ResourceLimit(m) => string_from_str(m.as_str()),
        }
    }
}

/// Quantized spectrum frames ready for the cache: (position in ms, one byte
/// per band).
#[derive(Debug, Clone)]
pub struct SpectrumAnalysisResult {
    pub duration_ms: u64,
    pub frames: Vec<(u64, Vec<u8>)>,
}

/// Quantized waveform-proxy frames for the cache: (position in ms, left min,
/// left max, right min, right max).
#[derive(Debug, Clone)]
pub struct WaveformProxyAnalysisResult {
    pub duration_ms: u64,
    pub frames: Vec<(u64, i8, i8, i8, i8)>,
}

/// The decoder used for analysis: the native decoder, then the bundled helper.
#[derive(Debug, Clone, Copy)]
pub struct NativeAnalysisDecoder;

/// Bounds on one analysis decode: decoded bytes, media duration and wall
/// time.
#[derive(Debug, Clone, Copy, PartialEq, Eq)]
pub struct AnalysisLimits {
    pub max_decoded_bytes: usize,
    pub max_duration: TimeSpan,
    pub execution_timeout: TimeSpan,
}

/// The ASCII digit characters.
pub open spec fn is_digit(c: char) -> bool {
    '0' <= c && c <= '9'
}

/// The value of a digit string.
pub open spec fn digits_value(s: Seq<char>) -> nat
    decreases s.len(),
{
    if s.len() == 0 {
        0
    } else {
        digits_value(s.drop_last()) * 10 + ((s.last() as u32) - ('0' as u32)) as nat
    }
}

/// The text after an optional leading `+`.
pub open spec fn unsigned_digits(s: Seq<char>) -> Seq<char> {
    if s.len() > 0 && s[0] == '+' { s.drop_first() } else { s }
}

/// Whether every character is an ASCII digit.
pub open spec fn all_digits(d: Seq<char>) -> bool {
    forall|i: int| 0 <= i < d.len() ==> is_digit(#[trigger] d[i])
}

/// How `str::parse::<u64>` reads text: an optional `+`, then one or more
/// ASCII digits whose value fits in 64 bits.
pub open spec fn spec_parse_u64(s: Seq<char>) -> Option<u64> {
    let d = unsigned_digits(s);
    if d.len() > 0 && all_digits(d) && digits_value(d) <= u64::MAX {
        Some(digits_value(d) as u64)
    } else {
        None
    }
}

/// Reads an unsigned decimal the way `str::parse::<u64>` does.
pub fn parse_u64(s: &str) -> (r: Option<u64>)
    ensures
        r == spec_parse_u64(s@),
{
    let chars = chars_vec(s);
    let start: usize = if chars.len() > 0 && chars[0] == '+' { 1 } else { 0 };
    let ghost d = unsigned_digits(s@);
    assert(d =~= chars@.skip(start as int));
    if start >= chars.len() {
        return None;
    }
    let mut value: u64 = 0;
    let mut i: usize = start;
    while i < chars.len()
        invariant
            start <= i <= chars.len(),
            chars@ == s@,
            d == unsigned_digits(s@),
            d == chars@.skip(start as int),
            forall|j: int| start <= j < i ==> is_digit(#[trigger] chars@[j]),
            value == digits_value(chars@.subrange(start as int, i as int)),
        decreases chars.len() - i,
    {
        let c = chars[i];
        if !('0' <= c && c <= '9') {
            proof {
                assert(d[i - start] == c);
                assert(!is_digit(d[i - start]));
                assert(!all_digits(d));
            }
            return None;
        }
        let digit: u64 = ((c as u32) - ('0' as u32)) as u64;
        let ghost p = chars@.subrange(start as int, i + 1);
        proof {
            assert(p.drop_last() =~= chars@.subrange(start as int, i as int));
            assert(p.last() == c);
            assert(digits_value(p) == value * 10 + digit);
        }
        if value > (u64::MAX - digit) / 10 {
            proof {
                assert(value * 10 + digit > u64::MAX) by (nonlinear_arith)
                    requires value > (u64::MAX - digit) / 10, digit < 10;
                if spec_parse_u64(s@) is Some {
                    assert(all_digits(d) && digits_value(d) <= u64::MAX);
                    lemma_digits_value_prefix(d, i + 1 - start);
                    assert(d.take(i + 1 - start) =~= p);
                    assert(false);
                }
            }
            return None;
        }
        assert(value * 10 + digit <= u64::MAX) by (nonlinear_arith)
            requires value <= (u64::MAX - digit) / 10, digit < 10;
        value = value * 10 + digit;
        i += 1;
    }
    proof {
        assert(chars@.subrange(start as int, chars.len() as int) =~= d);
        assert forall|j: int| 0 <= j < d.len() implies is_digit(#[trigger] d[j]) by {
            assert(d[j] == chars@[start + j]);
        }
        assert(all_digits(d));
    }
    Some(value)
}

/// A prefix of a digit string is worth no more than the whole.
proof fn lemma_digits_value_prefix(s: Seq<char>, k: int)
    requires
        0 <= k <= s.len(),
        all_digits(s),
    ensures
        digits_value(s.take(k)) <= digits_value(s),
    decreases s.len() - k,
{
    if k < s.len() {
        lemma_digits_value_prefix(s, k + 1);
        assert(s.take(k + 1).drop_last() =~= s.take(k));
    } else {
        assert(s.take(k) =~= s);
    }
}

/// A setting read as an unsigned number: the default when absent or
/// unreadable, then clamped into `min..=max`.
pub open spec fn spec_bounded_setting(raw: Option<Seq<char>>, default: u64, min: u64, max: u64) -> u64 {
    let v = match raw {
        Some(s) => match spec_parse_u64(s) {
            Some(n) => n,
            None => default,
        },
        None => default,
    };
    if v < min { min } else if v > max { max } else { v }
}

/// A setting read as an unsigned number, clamped into `min..=max`.
pub fn bounded_setting(raw: Option<&str>, default: u64, min: u64, max: u64) -> (r: u64)
    requires
        min <= max,
    ensures
        r == spec_bounded_setting(match raw { Some(s) => Some(s@), None => None }, default, min, max),
        min <= r <= max,
{
    let v = match raw {
        Some(s) => match parse_u64(s) {
            Some(n) => n,
            None => default,
        },
        None => default,
    };
    if v < min {
        min
    } else if v > max {
        max
    } else {
        v
    }
}

/// The limits within the compiled ceilings, all nonzero.
pub open spec fn limits_within_ceilings(l: AnalysisLimits) -> bool {
    &&& PCM_FRAME_BYTES <= l.max_decoded_bytes <= HARD_MAX_DECODED_BYTES
    &&& 1_000_000_000 <= l.max_duration.nanos() <= HARD_MAX_DURATION_SECS * 1_000_000_000
    &&& 1_000_000_000 <= l.execution_timeout.nanos() <= HARD_MAX_TIMEOUT_SECS * 1_000_000_000
}

impl Default for AnalysisLimits {
    /// 256 MiB of decoded audio, one hour of media, two minutes of work.
    fn default() -> (r: Self)
        ensures
            r.max_decoded_bytes == DEFAULT_MAX_DECODED_BYTES,
            r.max_duration.nanos() == DEFAULT_MAX_DURATION_SECS * 1_000_000_000,
            r.execution_timeout.nanos() == DEFAULT_TIMEOUT_SECS * 1_000_000_000,
    {
        AnalysisLimits {
            max_decoded_bytes: DEFAULT_MAX_DECODED_BYTES,
            max_duration: TimeSpan::from_secs(DEFAULT_MAX_DURATION_SECS),
            execution_timeout: TimeSpan::from_secs(DEFAULT_TIMEOUT_SECS),
        }
    }
}

/// Frames that fit a limit of `nanos` nanoseconds at `rate` frames per
/// second, capped at `usize::MAX`.
pub open spec fn frames_in(nanos: nat, rate: nat) -> nat {
    let f = nanos * rate / 1_000_000_000;
    if f > usize::MAX { usize::MAX as nat } else { f }
}

/// The most stereo frames a decode may produce at `rate` under `l`.
pub open spec fn spec_max_frames(l: AnalysisLimits, rate: nat) -> nat {
    let by_bytes = l.max_decoded_bytes as nat / PCM_FRAME_BYTES as nat;
    let by_duration = frames_in(l.max_duration.nanos(), rate);
    if by_bytes <= by_duration { by_bytes } else { by_duration }
}

impl AnalysisLimits {
    /// Limits taken from the three settings' raw values (absent when unset):
    /// each read as a number, defaulted when missing or unreadable, and
    /// clamped between a floor and its compiled ceiling.
    pub fn from_env(max_decoded_bytes: Option<&str>, max_duration_secs: Option<&str>, timeout_secs: Option<&str>) -> (r: Self)
        ensures
            r.max_decoded_bytes == spec_bounded_setting(
                match max_decoded_bytes { Some(s) => Some(s@), None => None },
                DEFAULT_MAX_DECODED_BYTES as u64,
                PCM_FRAME_BYTES as u64,
                HARD_MAX_DECODED_BYTES as u64,
            ),
            r.max_duration.nanos() == spec_bounded_setting(
                match max_duration_secs { Some(s) => Some(s@), None => None },
                DEFAULT_MAX_DURATION_SECS,
                1,
                HARD_MAX_DURATION_SECS,
            ) * 1_000_000_000,
            r.execution_timeout.nanos() == spec_bounded_setting(
                match timeout_secs { Some(s) => Some(s@), None => None },
                DEFAULT_TIMEOUT_SECS,
                1,
                HARD_MAX_TIMEOUT_SECS,
            ) * 1_000_000_000,
            limits_within_ceilings(r),
    {
        let bytes = bounded_setting(
            max_decoded_bytes,
            DEFAULT_MAX_DECODED_BYTES as u64,
            PCM_FRAME_BYTES as u64,
            HARD_MAX_DECODED_BYTES as u64,
        );
        let duration = bounded_setting(max_duration_secs, DEFAULT_MAX_DURATION_SECS, 1, HARD_MAX_DURATION_SECS);
        let timeout = bounded_setting(timeout_secs, DEFAULT_TIMEOUT_SECS, 1, HARD_MAX_TIMEOUT_SECS);
        AnalysisLimits {
            max_decoded_bytes: bytes as usize,
            max_duration: TimeSpan::from_secs(duration),
            execution_timeout: TimeSpan::from_secs(timeout),
        }
    }

    /// The most stereo frames a decode at `sample_rate` may produce: the
    /// tighter of the byte limit and the duration limit.
    pub fn max_frames(self, sample_rate: u32) -> (r: usize)
        ensures
            r == spec_max_frames(self, sample_rate as nat),
    {
        let by_bytes = self.max_decoded_bytes / PCM_FRAME_BYTES;
        let nanos = self.max_duration.as_nanos();
        assert(nanos * (sample_rate as u128) <= 18_446_744_073_709_551_616u128 * 1_000_000_000 * 4_294_967_296u128) by (nonlinear_arith)
            requires
                nanos < 18_446_744_073_709_551_616u128 * 1_000_000_000,
                sample_rate < 4_294_967_296u128;
        let product: u128 = nanos * (sample_rate as u128);
        let frames: u128 = product / 1_000_000_000;
        let by_duration: usize = if frames > (usize::MAX as u128) { usize::MAX } else { frames as usize };
        if by_bytes <= by_duration {
            by_bytes
        } else {
            by_duration
        }
    }
}

/// Why limits are refused, if they are: zero limits first, then limits over
/// the compiled ceilings.
pub open spec fn spec_limits_fault(l: AnalysisLimits) -> Option<Seq<char>> {
    if l.max_decoded_bytes < PCM_FRAME_BYTES || l.max_duration.nanos() == 0 || l.execution_timeout.nanos() == 0 {
        Some("analysis limits must be greater than zero"@)
    } else if l.max_decoded_bytes > HARD_MAX_DECODED_BYTES
        || l.max_duration.nanos() > HARD_MAX_DURATION_SECS * 1_000_000_000
        || l.execution_timeout.nanos() > HARD_MAX_TIMEOUT_SECS * 1_000_000_000 {
        Some("analysis limits exceed compiled safety ceilings"@)
    } else {
        None
    }
}

/// Accepts limits that are nonzero and within the compiled ceilings;
/// refuses others with a resource-limit error saying which.
pub fn validate_limits(limits: AnalysisLimits) -> (r: Result<(), AnalysisError>)
    ensures
        match spec_limits_fault(limits) {
            None => r is Ok,
            Some(m) => r matches Err(AnalysisError::ResourceLimit(s)) && s@ == m,
        },
{
    if limits.max_decoded_bytes < PCM_FRAME_BYTES || limits.max_duration.is_zero()
        || limits.execution_timeout.is_zero() {
        return Err(AnalysisError::ResourceLimit(string_from_str("analysis limits must be greater than zero")));
    }
    if limits.max_decoded_bytes > HARD_MAX_DECODED_BYTES
        || limits.max_duration.as_nanos() > (HARD_MAX_DURATION_SECS as u128) * 1_000_000_000
        || limits.execution_timeout.as_nanos() > (HARD_MAX_TIMEOUT_SECS as u128) * 1_000_000_000 {
        return Err(AnalysisError::ResourceLimit(string_from_str("analysis limits exceed compiled safety ceilings")));
    }
    Ok(())
}

/// Limits read from settings always pass validation.
pub proof fn lemma_configured_limits_are_valid(l: AnalysisLimits)
    requires
        limits_within_ceilings(l),
    ensures
        spec_limits_fault(l) is None,
{
}

/// The error raised when decoded audio outgrows `max_frames`.
pub fn decoded_limit_error(max_frames: usize) -> (r: AnalysisError)
    ensures
        r matches AnalysisError::ResourceLimit(m) && m@ == "decoded PCM exceeds configured limit ("@
            + decimal(max_frames as nat) + " stereo frames)"@,
{
    let mut s = string_from_str("decoded PCM exceeds configured limit (");
    let digits = decimal_chars(max_frames as u64);
    append_chars(&mut s, &digits);
    append_str(&mut s, " stereo frames)");
    AnalysisError::ResourceLimit(s)
}

/// A decoder failure reported as an analysis decode failure.
pub fn map_decode_error(error: DecodeError) -> (r: AnalysisError)
    ensures
        r matches AnalysisError::Decode(m) && m@ == match error {
            DecodeError::InvalidPcmSpec => "invalid PCM specification"@,
            DecodeError::InvalidSample => "invalid PCM sample"@,
            DecodeError::UnalignedBuffer => "PCM buffer is not frame-aligned"@,
            DecodeError::Message(t) => "decode failed: "@ + t@,
        },
{
    AnalysisError::Decode(error.message())
}

/// The smallest power of two from `size` upward that reaches `target`.
pub open spec fn pow2_at_least(size: nat, target: nat) -> nat
    decreases (if size >= target { 0 } else { (target - size) as nat }),
{
    if size == 0 || size >= target {
        size
    } else {
        pow2_at_least(2 * size, target)
    }
}

/// The analysis window for a hop of `hop_samples`: the smallest power of two
/// covering two hops and at least 256 samples, capped at 2048.
pub open spec fn spec_window_size(hop_samples: nat) -> nat {
    let target = if 2 * hop_samples >= 256 { 2 * hop_samples } else { 256 };
    let size = pow2_at_least(1, target);
    if size <= 2048 { size } else { 2048 }
}

proof fn lemma_pow2_at_least_grows(size: nat, target: nat)
    requires
        size > 0,
    ensures
        pow2_at_least(size, target) >= size,
    decreases (if size >= target { 0 } else { (target - size) as nat }),
{
    if size < target {
        lemma_pow2_at_least_grows(2 * size, target);
    }
}

/// The analysis window for a hop of `hop_samples`.
pub fn window_size(hop_samples: usize) -> (r: usize)
    requires
        hop_samples * 2 <= usize::MAX,
    ensures
        r == spec_window_size(hop_samples as nat),
        r <= 2048,
{
    let doubled = hop_samples * 2;
    let target: usize = if doubled >= 256 { doubled } else { 256 };
    let mut size: usize = 1;
    while size < target && size < 2048
        invariant
            size == 1 || size == 2 || size == 4 || size == 8 || size == 16 || size == 32 || size == 64
                || size == 128 || size == 256 || size == 512 || size == 1024 || size == 2048,
            target >= 256,
            pow2_at_least(size as nat, target as nat) == pow2_at_least(1, target as nat),
        decreases 2048 - size,
    {
        size = size * 2;
    }
    proof {
        lemma_pow2_at_least_grows(size as nat, target as nat);
    }
    if size <= 2048 {
        size
    } else {
        2048
    }
}


proof fn lemma_decimal_digits(n: nat)
    ensures
        decimal(n).len() > 0,
        all_digits(decimal(n)),
        digits_value(decimal(n)) == n,
    decreases n,
{
    let d = n % 10;
    let c = crate::fmt::decimal_digit(d);
    assert((c as u32) == 48 + d);
    assert(('0' as u32) == 48);
    if n < 10 {
        assert(decimal(n) =~= seq![c]);
        assert(seq![c].drop_last() =~= Seq::<char>::empty());
        assert(seq![c].last() == c);
        assert(digits_value(seq![c]) == digits_value(Seq::<char>::empty()) * 10 + ((c as u32) - ('0' as u32)) as nat);
        assert(digits_value(seq![c]) == n);
    }
    if n >= 10 {
        lemma_decimal_digits(n / 10);
        let prefix = decimal(n / 10);
        let whole = prefix.push(crate::fmt::decimal_digit(n % 10));
        assert(whole.drop_last() =~= prefix);
        assert forall|i: int| 0 <= i < whole.len() implies is_digit(#[trigger] whole[i]) by {
            if i < prefix.len() {
                assert(whole[i] == prefix[i]);
            }
        }
        assert(whole.last() == c);
        assert(digits_value(whole) == digits_value(prefix) * 10 + d);
        assert((n / 10) * 10 + d == n);
        assert(decimal(n) == whole);
    }
}

/// Reading back a rendered number gives the number: settings written as
/// decimals are read unchanged.
pub proof fn lemma_parse_decimal(n: u64)
    ensures
        spec_parse_u64(decimal(n as nat)) == Some(n),
{
    lemma_decimal_digits(n as nat);
    assert(is_digit(decimal(n as nat)[0]));
    assert(unsigned_digits(decimal(n as nat)) == decimal(n as nat));
}


/// The most waveform-proxy frames one track yields.
pub const MAX_WAVEFORM_FRAMES: usize = 30_000;

/// Frames per waveform bucket: the hop (at least 10 ms) at `rate`, at least
/// one frame.
pub open spec fn spec_hop_frames(rate: nat, hop_ms: nat) -> nat {
    let hop = if hop_ms < 10 { 10 } else { hop_ms };
    let f = rate * hop / 1000;
    if f < 1 { 1 } else { f }
}

/// How many buckets `total` frames fill, capped at the frame limit.
pub open spec fn spec_bucket_count(total: nat, hop_frames: nat) -> nat {
    let n = ((total + hop_frames - 1) as nat) / hop_frames;
    if n > MAX_WAVEFORM_FRAMES { MAX_WAVEFORM_FRAMES as nat } else { n }
}

/// Bucket `k` of the waveform buckets: starts at `k * h`, ends one hop later
/// or at the end of the track, and sits at its start time in ms.
pub open spec fn bucket_at(b: (usize, usize, u64), k: int, h: nat, total: nat, rate: nat) -> bool {
    &&& b.0 == k * h
    &&& b.1 == (if (k + 1) * h <= total { (k + 1) * h } else { total as int })
    &&& b.2 == k * h * 1000 / (rate as int)
}

/// The buckets of a stereo track of `total` frames at `rate` for waveform
/// proxies, each as (first frame, end frame, position in ms), and the
/// track's duration in ms (at least 1); refused for an empty, mismatched or
/// rateless signal.
pub fn waveform_buckets(sample_rate: u32, total: usize, right_len: usize, hop_ms: u64) -> (r: Result<(Vec<(usize, usize, u64)>, u64), AnalysisError>)
    requires
        (sample_rate as int) * (if hop_ms < 10 { 10 } else { hop_ms as int }) <= u64::MAX,
        (total as int) * 1000 <= u64::MAX,
        total as int + spec_hop_frames(sample_rate as nat, hop_ms as nat) <= usize::MAX,
    ensures
        (sample_rate == 0 || total == 0 || total != right_len) ==> (r matches Err(AnalysisError::Decode(m))
            && m@ == "invalid stereo samples"@),
        !(sample_rate == 0 || total == 0 || total != right_len) ==> r is Ok,
        r matches Ok((b, d)) ==> b@.len() == spec_bucket_count(total as nat, spec_hop_frames(sample_rate as nat, hop_ms as nat)),
        r matches Ok((b, d)) ==> forall|k: int| 0 <= k < b@.len() ==> bucket_at(#[trigger] b@[k], k, spec_hop_frames(sample_rate as nat, hop_ms as nat), total as nat, sample_rate as nat),
        r matches Ok((b, d)) ==> d == (if (total as int) * 1000 / (sample_rate as int) < 1 { 1 } else { (total as int) * 1000 / (sample_rate as int) }),
{
    if sample_rate == 0 || total == 0 || total != right_len {
        return Err(AnalysisError::Decode(string_from_str("invalid stereo samples")));
    }
    let hop: u64 = if hop_ms < 10 { 10 } else { hop_ms };
    let scaled: u64 = (sample_rate as u64) * hop / 1000;
    let hop_frames: usize = if scaled < 1 { 1 } else { scaled as usize };
    let ghost h = spec_hop_frames(sample_rate as nat, hop_ms as nat);
    assert(hop_frames == h);
    let mut buckets: Vec<(usize, usize, u64)> = Vec::new();
    let mut start: usize = 0;
    let ghost mut k: nat = 0;
    while start < total && buckets.len() < MAX_WAVEFORM_FRAMES
        invariant
            hop_frames == h,
            h >= 1,
            sample_rate > 0,
            (total as int) * 1000 <= u64::MAX,
            total as int + h <= usize::MAX,
            buckets@.len() == k,
            start == (if k * h <= total { (k * h) as int } else { total as int }),
            k <= MAX_WAVEFORM_FRAMES,
            k * h < total + h,
            forall|j: int| 0 <= j < buckets@.len() ==> bucket_at(#[trigger] buckets@[j], j, h, total as nat, sample_rate as nat),
        decreases total - start,
    {
        let end: usize = if hop_frames >= total - start { total } else { start + hop_frames };
        assert(start == k * h);
        assert((k + 1) * h == k * h + h) by (nonlinear_arith);
        let position_ms: u64 = (start as u64) * 1000 / (sample_rate as u64);
        buckets.push((start, end, position_ms));
        start = end;
        proof {
            k = k + 1;
        }
    }
    proof {
        let n = ((total + h - 1) as nat) / h;
        assert(buckets@.len() == spec_bucket_count(total as nat, h)) by (nonlinear_arith)
            requires
                h >= 1,
                k * h < total + h,
                buckets@.len() == k,
                start == (if k * h <= total { (k * h) as int } else { total as int }),
                !(start < total && k < MAX_WAVEFORM_FRAMES),
                k <= MAX_WAVEFORM_FRAMES,
                n == (total + h - 1) / (h as int);
    }
    let duration: u64 = (total as u64) * 1000 / (sample_rate as u64);
    Ok((buckets, if duration < 1 { 1 } else { duration }))
}

} // verus!
