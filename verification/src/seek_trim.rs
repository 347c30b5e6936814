//! Exact seeking in the decoder helper: a container seek lands on or before
//! the requested frame, so the decoded frames before it are counted and
//! discarded, and output starts exactly at the requested frame.

use vstd::prelude::*;

use crate::protocol::ExitCode;
use crate::text::{chars_eq, chars_vec, string_from_str};

verus! {

/// Floor division `n / d` for a positive `d`: rounds toward negative
/// infinity, also for negative numerators.
pub fn div_floor(numerator: i128, denominator: i128) -> (r: i128)
    requires
        denominator > 0,
    ensures
        r == numerator as int / denominator as int,
{
    let d: u128 = denominator as u128;
    if numerator >= 0 {
        ((numerator as u128) / d) as i128
    } else {
        let m: u128 = (0i128 - (numerator + 1)) as u128 + 1;
        assert(m == -(numerator as int));
        let c: u128 = (m + (d - 1)) / d;
        proof {
            let n = numerator as int;
            let di = d as int;
            let ci = c as int;
            assert(-ci == n / di) by (nonlinear_arith)
                requires
                    n < 0,
                    di > 0,
                    ci == (-n + di - 1) / di;
            assert(ci <= -n) by (nonlinear_arith)
                requires n < 0, di > 0, ci == (-n + di - 1) / di;
        }
        if c == 170_141_183_460_469_231_731_687_303_715_884_105_728u128 {
            i128::MIN
        } else {
            0i128 - (c as i128)
        }
    }
}

/// `a + b` clamped to the `i128` range.
pub open spec fn sat_i128(v: int) -> int {
    if v > i128::MAX { i128::MAX as int } else if v < i128::MIN { i128::MIN as int } else { v }
}

/// Tracks the output frame of decoded audio after a seek and how much of it
/// to discard before the requested frame.
#[derive(Debug, Clone, Copy)]
pub struct LeadingTrim {
    pub target_frame: i128,
    pub next_frame: Option<i128>,
    pub timeline_origin: i64,
    pub time_base: (i32, i32),
    pub sample_rate: u32,
    pub seek_padding_frames: i128,
}

/// The output frame of a decoded frame stamped `timestamp` in a stream whose
/// timeline starts at `origin`: the elapsed time in output frames, rounded
/// down, less the decoder's seek padding.
pub open spec fn spec_first_frame(timestamp: i64, origin: i64, time_base: (i32, i32), rate: u32, padding: int) -> int {
    let relative = timestamp - origin;
    let relative_clamped = if relative > i64::MAX { i64::MAX as int } else if relative < i64::MIN { i64::MIN as int } else { relative };
    let den: int = if time_base.1 < 1 { 1 } else { time_base.1 as int };
    relative_clamped * time_base.0 * rate / den - padding
}

impl LeadingTrim {
    /// A trim for a seek to `start_frame`; nothing is known of the decoded
    /// position until the first decoded frame arrives.
    pub fn new(start_frame: u64, timeline_origin: i64, time_base: (i32, i32), sample_rate: u32, seek_padding_frames: u64) -> (t: LeadingTrim)
        ensures
            t.target_frame == start_frame,
            t.next_frame is None,
            t.timeline_origin == timeline_origin,
            t.time_base == time_base,
            t.sample_rate == sample_rate,
            t.seek_padding_frames == seek_padding_frames,
    {
        LeadingTrim {
            target_frame: start_frame as i128,
            next_frame: None,
            timeline_origin,
            time_base,
            sample_rate,
            seek_padding_frames: seek_padding_frames as i128,
        }
    }

    /// Fixes the decoded position from the first decoded frame's timestamp;
    /// later frames change nothing. A first frame without a timestamp makes
    /// an exact seek impossible.
    pub fn begin_decoded_frame(&mut self, timestamp: Option<i64>) -> (r: Result<(), (ExitCode, String)>)
        requires
            0 <= old(self).seek_padding_frames <= u64::MAX,
        ensures
            old(self).next_frame is Some ==> r is Ok && *final(self) == *old(self),
            old(self).next_frame is None && timestamp is None ==> (r matches Err((c, m)) && c == ExitCode::Decode
                && m@ == "FFmpeg did not provide timestamps needed for an exact seek"@) && *final(self) == *old(self),
            old(self).next_frame is None && timestamp is Some ==> r is Ok
                && final(self).next_frame == Some(spec_first_frame(
                    timestamp.unwrap(),
                    old(self).timeline_origin,
                    old(self).time_base,
                    old(self).sample_rate,
                    old(self).seek_padding_frames as int,
                ) as i128)
                && final(self).target_frame == old(self).target_frame
                && final(self).seek_padding_frames == old(self).seek_padding_frames,
    {
        if self.next_frame.is_some() {
            return Ok(());
        }
        let stamp = match timestamp {
            Some(t) => t,
            None => {
                return Err((ExitCode::Decode, string_from_str("FFmpeg did not provide timestamps needed for an exact seek")));
            },
        };
        let wide: i128 = (stamp as i128) - (self.timeline_origin as i128);
        let relative: i128 = if wide > (i64::MAX as i128) {
            i64::MAX as i128
        } else if wide < (i64::MIN as i128) {
            i64::MIN as i128
        } else {
            wide
        };
        let tb0: i128 = self.time_base.0 as i128;
        let rate: i128 = self.sample_rate as i128;
        assert(-9_223_372_036_854_775_808i128 * 2_147_483_648i128 <= relative * tb0 <= 9_223_372_036_854_775_808i128 * 2_147_483_648i128) by (nonlinear_arith)
            requires -9_223_372_036_854_775_808i128 <= relative <= 9_223_372_036_854_775_807i128, -2_147_483_648i128 <= tb0 <= 2_147_483_647i128;
        let scaled: i128 = relative * tb0;
        assert(-19_807_040_628_566_084_398_385_987_584i128 * 4_294_967_296i128 <= scaled * rate <= 19_807_040_628_566_084_398_385_987_584i128 * 4_294_967_296i128) by (nonlinear_arith)
            requires
                -19_807_040_628_566_084_398_385_987_584i128 <= scaled <= 19_807_040_628_566_084_398_385_987_584i128,
                0 <= rate < 4_294_967_296i128;
        let numerator: i128 = scaled * rate;
        let den: i128 = if self.time_base.1 < 1 { 1 } else { self.time_base.1 as i128 };
        let first: i128 = div_floor(numerator, den);
        assert(-85_070_591_730_234_615_865_843_651_857_942_052_864i128 <= first <= 85_070_591_730_234_615_865_843_651_857_942_052_864i128) by (nonlinear_arith)
            requires
                -85_070_591_730_234_615_865_843_651_857_942_052_864i128 <= numerator <= 85_070_591_730_234_615_865_843_651_857_942_052_864i128,
                den >= 1,
                first == numerator / den;
        self.next_frame = Some(first - self.seek_padding_frames);
        Ok(())
    }

    /// Of the next `frame_count` decoded frames, how many lie before the
    /// requested frame and are discarded; the decoded position moves past
    /// all of them.
    pub fn skip_for(&mut self, frame_count: usize) -> (skip: usize)
        ensures
            ({
                let next = match old(self).next_frame { Some(n) => n as int, None => old(self).target_frame as int };
                let wanted = sat_i128(old(self).target_frame - next);
                &&& skip == (if wanted < 0 { 0 } else if wanted > frame_count { frame_count as int } else { wanted })
                &&& final(self).next_frame == Some(sat_i128(next + frame_count) as i128)
                &&& final(self).target_frame == old(self).target_frame
            }),
            skip <= frame_count,
    {
        let next: i128 = match self.next_frame {
            Some(n) => n,
            None => self.target_frame,
        };
        let available: i128 = frame_count as i128;
        let diff: i128 = if next < 0 && self.target_frame > i128::MAX + next {
            i128::MAX
        } else if next > 0 && self.target_frame < i128::MIN + next {
            i128::MIN
        } else {
            self.target_frame - next
        };
        let skip: i128 = if diff < 0 { 0 } else if diff > available { available } else { diff };
        let moved: i128 = if next > i128::MAX - available { i128::MAX } else { next + available };
        self.next_frame = Some(moved);
        skip as usize
    }
}

/// The decoded position is counted in output frames: a frame stamped `secs`
/// whole seconds after the timeline origin (in a time base of `num / den`
/// seconds per tick) lies `secs * rate` output frames in, less the seek
/// padding, whatever the time base; and in general the position (with the
/// padding added back) is the largest whole number of output frames whose
/// duration does not exceed the elapsed stream time.
pub proof fn lemma_first_frame_counts_output_frames(
    timestamp: i64,
    origin: i64,
    time_base: (i32, i32),
    rate: u32,
    padding: int,
    secs: int,
)
    requires
        time_base.1 >= 1,
        i64::MIN <= timestamp - origin <= i64::MAX,
    ensures
        (timestamp - origin) * time_base.0 == secs * time_base.1 ==> spec_first_frame(
            timestamp,
            origin,
            time_base,
            rate,
            padding,
        ) == secs * rate - padding,
        ({
            let f = spec_first_frame(timestamp, origin, time_base, rate, padding) + padding;
            &&& f * time_base.1 <= (timestamp - origin) * time_base.0 * rate
            &&& (timestamp - origin) * time_base.0 * rate < (f + 1) * time_base.1
        }),
{
    let rel = timestamp - origin;
    let num = time_base.0 as int;
    let den = time_base.1 as int;
    let r = rate as int;
    let q = rel * num * r / den;
    assert(q * den <= rel * num * r < (q + 1) * den) by (nonlinear_arith)
        requires
            den >= 1,
            q == rel * num * r / den,
    ;
    if rel * num == secs * den {
        assert(rel * num * r == (secs * r) * den) by (nonlinear_arith)
            requires
                rel * num == secs * den,
        ;
        assert(q == secs * r) by (nonlinear_arith)
            requires
                den >= 1,
                q == rel * num * r / den,
                rel * num * r == (secs * r) * den,
        ;
    }
}

/// After a frame batch that is not wholly discarded, output resumes exactly
/// at the requested frame when decoding started at or before it, and at the
/// decoded position otherwise: nothing past the request is lost.
pub proof fn lemma_trim_resumes_at_target(target: int, next: int, frame_count: nat)
    requires
        frame_count <= usize::MAX,
        i128::MIN <= target <= i128::MAX,
        i128::MIN <= next <= i128::MAX,
        ({
            let wanted = sat_i128(target - next);
            let skip = if wanted < 0 { 0 } else if wanted > frame_count { frame_count as int } else { wanted };
            skip < frame_count
        }),
    ensures
        ({
            let wanted = sat_i128(target - next);
            let skip = if wanted < 0 { 0 } else if wanted > frame_count { frame_count as int } else { wanted };
            next + skip == if next <= target { target } else { next }
        }),
{
}


/// Integer division rounding toward zero, as Rust's `/` on signed integers.
pub open spec fn trunc_div(a: int, b: int) -> int {
    if a >= 0 { a / b } else { -((-a) / b) }
}

/// The stream timestamp a decode starting at `start_ms` seeks to, relative
/// to the timeline origin: `start_ms` (read as `i64`) times the time base's
/// denominator (saturating), over 1000 times its numerator (at least 1),
/// rounded toward zero.
pub open spec fn spec_seek_timestamp(start_ms: u64, time_base: (i32, i32)) -> int {
    let ms = (start_ms as i64) as int;
    let num = sat_i64(ms * (time_base.1 as int));
    let den = 1000 * (if time_base.0 < 1 { 1 } else { time_base.0 as int });
    trunc_div(num, den)
}

/// The stream timestamp a decode starting at `start_ms` seeks to.
pub fn seek_timestamp(start_ms: u64, time_base: (i32, i32)) -> (r: i64)
    ensures
        r == spec_seek_timestamp(start_ms, time_base),
{
    let ms: i64 = start_ms as i64;
    let a: i128 = ms as i128;
    let b: i128 = time_base.1 as i128;
    assert(-9_223_372_036_854_775_808i128 * 2_147_483_648i128 <= a * b <= 9_223_372_036_854_775_808i128 * 2_147_483_648i128) by (nonlinear_arith)
        requires -9_223_372_036_854_775_808i128 <= a <= 9_223_372_036_854_775_807i128, -2_147_483_648i128 <= b <= 2_147_483_647i128;
    let wide: i128 = a * b;
    let num: i64 = if wide > (i64::MAX as i128) {
        i64::MAX
    } else if wide < (i64::MIN as i128) {
        i64::MIN
    } else {
        wide as i64
    };
    let scale: i64 = if time_base.0 < 1 { 1 } else { time_base.0 as i64 };
    let den: i64 = 1000 * scale;
    let r: i64 = if num >= 0 {
        num / den
    } else {
        let m: i128 = 0i128 - (num as i128);
        let q: i128 = m / (den as i128);
        (0i128 - q) as i64
    };
    r
}

/// What the probe decode learned so far: the timestamp of the first decoded
/// frame, its sample count, the largest frame seen, and the decoded rate.
#[derive(Debug, Clone, Copy, PartialEq, Eq, Structural)]
pub struct TimelineProbe {
    pub origin: Option<i64>,
    pub first_samples: Option<usize>,
    pub nominal_samples: usize,
    pub decoded_rate: u32,
}

impl TimelineProbe {
    /// Nothing decoded yet; the rate defaults to 1.
    pub fn new() -> (p: TimelineProbe)
        ensures
            p == (TimelineProbe { origin: None, first_samples: None, nominal_samples: 0, decoded_rate: 1 }),
    {
        TimelineProbe { origin: None, first_samples: None, nominal_samples: 0, decoded_rate: 1 }
    }

    /// Records a decoded frame: its timestamp (when it has one), sample count
    /// and rate. The first frame fixes the origin (once a timestamp is seen),
    /// the first sample count and the rate (at least 1). Returns whether the
    /// probe can stop: a frame larger than the first one was seen.
    pub fn observe(&mut self, timestamp: Option<i64>, samples: usize, rate: u32) -> (stop: bool)
        ensures
            final(self).origin == (if old(self).origin is None { timestamp } else { old(self).origin }),
            final(self).first_samples == (if old(self).origin is None { Some(samples) } else { old(self).first_samples }),
            final(self).decoded_rate == (if old(self).origin is None {
                if rate < 1 { 1 } else { rate }
            } else {
                old(self).decoded_rate
            }),
            final(self).nominal_samples == (if samples > old(self).nominal_samples { samples } else { old(self).nominal_samples }),
            stop == (final(self).first_samples matches Some(f) && final(self).nominal_samples > f),
    {
        if self.origin.is_none() {
            self.origin = timestamp;
            self.first_samples = Some(samples);
            self.decoded_rate = if rate < 1 { 1 } else { rate };
        }
        if samples > self.nominal_samples {
            self.nominal_samples = samples;
        }
        match self.first_samples {
            Some(f) => self.nominal_samples > f,
            None => false,
        }
    }

    /// The timeline origin and the decoder's leading samples (the largest
    /// frame less the first), or an error when no frame had a timestamp.
    pub fn finish(&self) -> (r: Result<(i64, usize), (ExitCode, String)>)
        ensures
            match self.origin {
                Some(o) => r == Ok::<(i64, usize), (ExitCode, String)>((o, ({
                    let f = match self.first_samples { Some(f) => f as int, None => 0 };
                    if self.nominal_samples >= f { (self.nominal_samples - f) as usize } else { 0usize }
                }))),
                None => r matches Err((code, m)) && code == ExitCode::UnsupportedMedia
                    && m@ == "audio stream produced no timestamped frames"@,
            },
    {
        match self.origin {
            Some(o) => {
                let f: usize = match self.first_samples {
                    Some(f) => f,
                    None => 0,
                };
                let leading: usize = if self.nominal_samples >= f { self.nominal_samples - f } else { 0 };
                Ok((o, leading))
            },
            None => Err((ExitCode::UnsupportedMedia, string_from_str("audio stream produced no timestamped frames"))),
        }
    }
}

/// `a` clamped to the `u64` range from above.
pub open spec fn sat_u64(v: int) -> int {
    if v > u64::MAX { u64::MAX as int } else { v }
}

/// Room for the resampler's output of one decoded frame: the frame's
/// samples at the output rate (rounded up, saturating), plus the samples the
/// resampler still holds back (none when it reports none or a negative
/// count), plus a margin of 32.
pub open spec fn spec_output_capacity(samples: nat, decoded_rate: nat, output_rate: nat, delay: Option<i64>) -> int {
    let rate = if decoded_rate < 1 { 1 } else { decoded_rate };
    let scaled = sat_u64(sat_u64((samples * output_rate) as int) + rate - 1) / (rate as int);
    let held = match delay {
        Some(d) => if d < 0 { 0 } else { d as int },
        None => 0,
    };
    sat_u64(sat_u64(scaled + held) + 32)
}

/// Room for the resampler's output of one decoded frame.
pub fn output_capacity(samples: usize, decoded_rate: u32, output_rate: u32, delay: Option<i64>) -> (r: u64)
    ensures
        r == spec_output_capacity(samples as nat, decoded_rate as nat, output_rate as nat, delay),
{
    let rate: u64 = if decoded_rate < 1 { 1 } else { decoded_rate as u64 };
    let a: u128 = samples as u128;
    let b: u128 = output_rate as u128;
    assert(a * b <= 18_446_744_073_709_551_615u128 * 4_294_967_295u128) by (nonlinear_arith)
        requires a <= 18_446_744_073_709_551_615u128, b <= 4_294_967_295u128;
    let product: u128 = a * b;
    let product: u64 = if product > (u64::MAX as u128) { u64::MAX } else { product as u64 };
    let raised: u64 = if product > u64::MAX - (rate - 1) { u64::MAX } else { product + (rate - 1) };
    let scaled: u64 = raised / rate;
    let held: u64 = match delay {
        Some(d) => if d < 0 { 0 } else { d as u64 },
        None => 0,
    };
    let with_held: u64 = if scaled > u64::MAX - held { u64::MAX } else { scaled + held };
    if with_held > u64::MAX - 32 { u64::MAX } else { with_held + 32 }
}

/// The sample count to allocate for a converted frame of `capacity`: at
/// least one, and refused when FFmpeg could not address it.
pub fn frame_allocation(capacity: u64) -> (r: Result<usize, (ExitCode, String)>)
    ensures
        capacity > i32::MAX ==> (r matches Err((code, m)) && code == ExitCode::Decode
            && m@ == "FFmpeg requested an oversized PCM frame"@),
        capacity <= i32::MAX ==> r == Ok::<usize, (ExitCode, String)>(if capacity < 1 { 1 } else { capacity as usize }),
{
    if capacity > i32::MAX as u64 {
        return Err((ExitCode::Decode, string_from_str("FFmpeg requested an oversized PCM frame")));
    }
    Ok(if capacity < 1 { 1 } else { capacity as usize })
}

/// How a failed write of PCM output ends the helper: a reader that went away
/// (a broken pipe) is a normal end, anything else a protocol failure.
pub fn output_failure(broken_pipe: bool, message: String) -> (r: (ExitCode, String))
    ensures
        broken_pipe ==> r.0 == ExitCode::Success && r.1@.len() == 0,
        !broken_pipe ==> r == (ExitCode::ProtocolIo, message),
{
    if broken_pipe {
        (ExitCode::Success, String::new())
    } else {
        (ExitCode::ProtocolIo, message)
    }
}

/// The output frame a decode starting at `start_ms` begins at, rounded down.
pub fn start_frame_for(start_ms: u64, sample_rate: u32) -> (r: u64)
    ensures
        r == (if start_ms * sample_rate > u64::MAX { u64::MAX as int } else { start_ms * sample_rate }) / 1000,
{
    let a: u128 = start_ms as u128;
    let b: u128 = sample_rate as u128;
    assert(a * b <= 18_446_744_073_709_551_615u128 * 4_294_967_295u128) by (nonlinear_arith)
        requires a <= 18_446_744_073_709_551_615u128, b <= 4_294_967_295u128;
    let product: u128 = a * b;
    let capped: u64 = if product > (u64::MAX as u128) { u64::MAX } else { product as u64 };
    capped / 1000
}

/// Whether a codec is MPEG audio layer 1, 2 or 3, whose encoder delay is
/// lost after a container seek.
pub open spec fn is_mpeg_audio(codec: Seq<char>) -> bool {
    codec == "mp1"@ || codec == "mp2"@ || codec == "mp3"@
}

/// Output frames to discard after a seek for MPEG audio: the decoder's
/// leading samples at the output rate, rounded up; none for other codecs.
pub open spec fn spec_seek_padding(codec: Seq<char>, leading_samples: nat, output_rate: nat, decoded_rate: nat) -> nat {
    if is_mpeg_audio(codec) {
        let scaled = if leading_samples * output_rate > u64::MAX { u64::MAX as nat } else { leading_samples * output_rate };
        let padded = if scaled + decoded_rate - 1 > u64::MAX { u64::MAX as nat } else { (scaled + decoded_rate - 1) as nat };
        padded / decoded_rate
    } else {
        0
    }
}

/// Output frames to discard after a seek for the codec `codec`.
pub fn seek_padding_frames(codec: &str, leading_samples: usize, output_rate: u32, decoded_rate: u32) -> (r: u64)
    requires
        decoded_rate > 0,
    ensures
        r == spec_seek_padding(codec@, leading_samples as nat, output_rate as nat, decoded_rate as nat),
{
    let name = chars_vec(codec);
    let mpeg = chars_eq(&name, &chars_vec("mp1")) || chars_eq(&name, &chars_vec("mp2")) || chars_eq(
        &name,
        &chars_vec("mp3"),
    );
    if !mpeg {
        return 0;
    }
    let a: u128 = leading_samples as u128;
    let b: u128 = output_rate as u128;
    assert(a * b <= 18_446_744_073_709_551_615u128 * 4_294_967_295u128) by (nonlinear_arith)
        requires a <= 18_446_744_073_709_551_615u128, b <= 4_294_967_295u128;
    let product: u128 = a * b;
    let scaled: u64 = if product > (u64::MAX as u128) { u64::MAX } else { product as u64 };
    let raised: u128 = (scaled as u128) + (decoded_rate as u128) - 1;
    let padded: u64 = if raised > (u64::MAX as u128) { u64::MAX } else { raised as u64 };
    padded / (decoded_rate as u64)
}

/// The playable length of a stream whose reported duration may include a
/// positive start offset; a negative start (codec pre-roll) changes nothing.
pub fn playable_duration(duration: i64, stream_start: i64) -> (r: i64)
    ensures
        r == sat_i64(duration - (if stream_start > 0 { stream_start as int } else { 0 })),
{
    let start: i64 = if stream_start > 0 { stream_start } else { 0 };
    let wide: i128 = (duration as i128) - (start as i128);
    if wide < (i64::MIN as i128) {
        i64::MIN
    } else {
        wide as i64
    }
}

/// `v` clamped to the `i64` range.
pub open spec fn sat_i64(v: int) -> int {
    if v > i64::MAX { i64::MAX as int } else if v < i64::MIN { i64::MIN as int } else { v }
}

} // verus!
