//! PCM stream shape and frame/time conversions.

use vstd::prelude::*;

use crate::text::{concat_str, string_from_str};
use crate::timespan::TimeSpan;

verus! {

/// The most interleaved channels a stream may carry.
pub const MAX_CHANNELS: u16 = 32;

/// Sample rate and channel count of an interleaved PCM stream.
#[derive(Debug, Clone, Copy, PartialEq, Eq)]
pub struct PcmSpec {
    pub sample_rate: u32,
    pub channels: u16,
}

/// Decoder failures.
#[derive(Debug)]
pub enum DecodeError {
    InvalidPcmSpec,
    InvalidSample,
    UnalignedBuffer,
    Message(String),
}

impl DecodeError {
    /// The error's user-facing text.
    pub fn message(&self) -> (r: String)
        ensures
            r@ == match self {
                DecodeError::InvalidPcmSpec => "invalid PCM specification"@,
                DecodeError::InvalidSample => "invalid PCM sample"@,
                DecodeError::UnalignedBuffer => "PCM buffer is not frame-aligned"@,
                DecodeError::Message(m) => "decode failed: "@ + m@,
            },
    {
        match self {
            DecodeError::InvalidPcmSpec => string_from_str("invalid PCM specification"),
            DecodeError::InvalidSample => string_from_str("invalid PCM sample"),
            DecodeError::UnalignedBuffer => string_from_str("PCM buffer is not frame-aligned"),
            DecodeError::Message(m) => concat_str("decode failed: ", m.as_str()),
        }
    }
}

/// Whether a rate and channel count describe a usable stream.
pub open spec fn valid_pcm_spec(sample_rate: u32, channels: u16) -> bool {
    sample_rate != 0 && 1 <= channels <= 32
}

impl PcmSpec {
    /// Checks and builds a stream shape.
    pub fn new(sample_rate: u32, channels: u16) -> (r: Result<PcmSpec, DecodeError>)
        ensures
            r is Ok <==> valid_pcm_spec(sample_rate, channels),
            r matches Ok(s) ==> s.sample_rate == sample_rate && s.channels == channels,
            r matches Err(e) ==> e is InvalidPcmSpec,
    {
        if sample_rate == 0 || !(1 <= channels && channels <= MAX_CHANNELS) {
            return Err(DecodeError::InvalidPcmSpec);
        }
        Ok(PcmSpec { sample_rate, channels })
    }

    /// Samples in one interleaved frame.
    pub fn frame_samples(self) -> (n: usize)
        ensures
            n == self.channels,
    {
        self.channels as usize
    }
}

/// Frames covered by `nanos` nanoseconds at `rate` frames per second, rounded
/// down and capped at `u64::MAX`.
pub open spec fn spec_duration_to_frames(nanos: nat, rate: nat) -> nat {
    let f = nanos * rate / 1_000_000_000;
    if f > u64::MAX { u64::MAX as nat } else { f }
}

/// Nanoseconds covered by `frames` frames at `rate` frames per second, rounded
/// down and capped at `u64::MAX`; zero for a zero rate.
pub open spec fn spec_frames_to_nanos(frames: nat, rate: nat) -> nat {
    if rate == 0 {
        0
    } else {
        let n = frames * 1_000_000_000 / rate;
        if n > u64::MAX { u64::MAX as nat } else { n }
    }
}

/// Frames covered by a span of time at `sample_rate`.
pub fn duration_to_frames(duration: TimeSpan, sample_rate: u32) -> (frames: u64)
    ensures
        frames == spec_duration_to_frames(duration.nanos(), sample_rate as nat),
{
    let nanos = duration.as_nanos();
    proof {
        assert(nanos * (sample_rate as u128) <= 18_446_744_073_709_551_616u128 * 1_000_000_000 * 4_294_967_296u128) by (nonlinear_arith)
            requires nanos <= 18_446_744_073_709_551_616u128 * 1_000_000_000, sample_rate <= 4_294_967_295u32;
    }
    let scaled = nanos * (sample_rate as u128) / 1_000_000_000;
    if scaled > u64::MAX as u128 {
        u64::MAX
    } else {
        scaled as u64
    }
}

/// The span covered by `frames` frames at `sample_rate`; empty for a zero rate.
pub fn frames_to_duration(frames: u64, sample_rate: u32) -> (d: TimeSpan)
    ensures
        d.nanos() == spec_frames_to_nanos(frames as nat, sample_rate as nat),
{
    if sample_rate == 0 {
        return TimeSpan::zero();
    }
    let f = frames as u128;
    assert(f * 1_000_000_000 <= 18_446_744_073_709_551_615u128 * 1_000_000_000) by (nonlinear_arith)
        requires f <= 18_446_744_073_709_551_615u128;
    let nanos = f * 1_000_000_000 / (sample_rate as u128);
    let capped = if nanos > u64::MAX as u128 { u64::MAX } else { nanos as u64 };
    TimeSpan::from_nanos(capped)
}


/// Converting frames to time and back never yields more frames than there
/// were: time is rounded down each way, so a position never runs ahead.
pub proof fn lemma_frames_round_trip_never_grows(frames: nat, rate: nat)
    requires
        rate > 0,
    ensures
        spec_duration_to_frames(spec_frames_to_nanos(frames, rate), rate) <= frames,
{
    let n = frames * 1_000_000_000 / rate;
    assert(n * rate <= frames * 1_000_000_000) by (nonlinear_arith)
        requires n == frames * 1_000_000_000 / rate, rate > 0;
    let capped = if n > u64::MAX { u64::MAX as nat } else { n };
    assert(capped * rate <= frames * 1_000_000_000) by (nonlinear_arith)
        requires capped <= n, n * rate <= frames * 1_000_000_000, rate > 0;
    assert(capped * rate / 1_000_000_000 <= frames) by (nonlinear_arith)
        requires capped * rate <= frames * 1_000_000_000;
}

/// Converting a whole number of seconds to frames and back is exact.
pub proof fn lemma_whole_seconds_round_trip(secs: nat, rate: nat)
    requires
        rate > 0,
        secs * rate <= u64::MAX,
        secs * 1_000_000_000 <= u64::MAX,
    ensures
        spec_frames_to_nanos(spec_duration_to_frames(secs * 1_000_000_000, rate), rate) == secs * 1_000_000_000,
{
    assert(secs * 1_000_000_000 * rate / 1_000_000_000 == secs * rate) by (nonlinear_arith);
    assert(secs * rate * 1_000_000_000 / rate == secs * 1_000_000_000) by (nonlinear_arith)
        requires rate > 0;
}

} // verus!
