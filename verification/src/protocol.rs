//! Wire protocol between the player and its bundled decoder helper: a
//! little-endian `u32` length prefix followed by a JSON header, checks of
//! that header against the decode request, and diagnostics sanitizing.

use std::collections::BTreeMap;
use vstd::prelude::*;

pub use crate::diagnostic::sanitize_diagnostic;
use crate::fmt::{decimal, decimal_chars};
use crate::text::{append_chars, append_str, chars_vec, concat_str, string_from_chars, string_from_str};

verus! {

pub const PROTOCOL_MAJOR: u16 = 1;

pub const PROTOCOL_MINOR: u16 = 1;

/// The largest JSON header accepted, in bytes.
pub const MAX_HEADER_BYTES: usize = 65536;

/// PCM sample encoding on the wire.
#[derive(Debug, Clone, Copy, PartialEq, Eq, Structural)]
pub enum SampleFormat {
    F32le,
}

/// What the player asks the helper to decode.
#[derive(Debug, Clone, PartialEq, Eq)]
pub struct DecodeRequest {
    pub sample_rate: u32,
    pub channels: u16,
    pub format: SampleFormat,
    pub start_frame: u64,
}

/// The header the helper writes before the PCM stream.
#[derive(Debug, Clone, PartialEq, Eq)]
pub struct DecodeHeader {
    pub protocol_major: u16,
    pub protocol_minor: u16,
    pub sample_format: SampleFormat,
    pub sample_rate: u32,
    pub channels: u16,
    pub duration_frames: Option<u64>,
    pub start_frame: u64,
}

/// What the helper reports about its build.
#[derive(Debug, Clone, PartialEq, Eq)]
pub struct Capabilities {
    pub helper_version: String,
    pub protocol_major: u16,
    pub protocol_minor: u16,
    pub ffmpeg_version: String,
    pub ffmpeg_commit: String,
    pub configuration_hash: String,
    pub library_majors: BTreeMap<String, u32>,
    pub demuxers: Vec<String>,
    pub decoders: Vec<String>,
}

/// Process exit codes of the helper.
#[derive(Debug, Clone, Copy, PartialEq, Eq, Structural)]
pub enum ExitCode {
    Success,
    InvalidArguments,
    Input,
    UnsupportedMedia,
    LibraryCompatibility,
    Decode,
    ProtocolIo,
    Internal,
}

/// The numeric process exit status of a helper exit code.
pub open spec fn spec_exit_status(c: ExitCode) -> u8 {
    match c {
        ExitCode::Success => 0,
        ExitCode::InvalidArguments => 2,
        ExitCode::Input => 3,
        ExitCode::UnsupportedMedia => 4,
        ExitCode::LibraryCompatibility => 5,
        ExitCode::Decode => 6,
        ExitCode::ProtocolIo => 7,
        ExitCode::Internal => 70,
    }
}

impl ExitCode {
    /// The numeric process exit status.
    pub fn code(self) -> (n: u8)
        ensures
            n == spec_exit_status(self),
    {
        match self {
            ExitCode::Success => 0,
            ExitCode::InvalidArguments => 2,
            ExitCode::Input => 3,
            ExitCode::UnsupportedMedia => 4,
            ExitCode::LibraryCompatibility => 5,
            ExitCode::Decode => 6,
            ExitCode::ProtocolIo => 7,
            ExitCode::Internal => 70,
        }
    }
}

/// Protocol failures.
#[derive(Debug)]
pub enum ProtocolError {
    Truncated,
    Oversized,
    Json(String),
    MajorMismatch(u16),
    RequestMismatch(String),
    Invalid(String),
    Io(String),
}

impl ProtocolError {
    /// The error's user-facing text.
    pub fn message(&self) -> (r: String)
        ensures
            r@ == match self {
                ProtocolError::Truncated => "protocol header is truncated"@,
                ProtocolError::Oversized => "protocol header exceeds 65536 bytes"@,
                ProtocolError::Json(m) => "invalid protocol JSON: "@ + m@,
                ProtocolError::MajorMismatch(v) => "protocol major "@ + decimal(*v as nat) + " is not supported"@,
                ProtocolError::RequestMismatch(m) => "protocol header does not match the decode request: "@ + m@,
                ProtocolError::Invalid(m) => "invalid protocol header: "@ + m@,
                ProtocolError::Io(m) => "protocol I/O: "@ + m@,
            },
    {
        match self {
            ProtocolError::Truncated => string_from_str("protocol header is truncated"),
            ProtocolError::Oversized => string_from_str("protocol header exceeds 65536 bytes"),
            ProtocolError::Json(m) => concat_str("invalid protocol JSON: ", m.as_str()),
            ProtocolError::MajorMismatch(v) => {
                let mut s = string_from_str("protocol major ");
                let digits = decimal_chars(*v as u64);
                append_chars(&mut s, &digits);
                append_str(&mut s, " is not supported");
                s
            },
            ProtocolError::RequestMismatch(m) => concat_str(
                "protocol header does not match the decode request: ",
                m.as_str(),
            ),
            ProtocolError::Invalid(m) => concat_str("invalid protocol header: ", m.as_str()),
            ProtocolError::Io(m) => concat_str("protocol I/O: ", m.as_str()),
        }
    }
}

/// Which check, if any, a header fails on its own.
pub open spec fn spec_header_fault(h: DecodeHeader) -> Option<u8> {
    if h.protocol_major != PROTOCOL_MAJOR {
        Some(0)
    } else if h.sample_rate == 0 || h.channels == 0 || h.channels > 32 {
        Some(1)
    } else if h.duration_frames matches Some(d) && h.start_frame > d {
        Some(2)
    } else {
        None
    }
}

/// Which field, if any, disagrees between a header and the request.
pub open spec fn spec_request_fault(h: DecodeHeader, r: DecodeRequest) -> Option<u8> {
    if h.sample_format != r.format {
        Some(0)
    } else if h.sample_rate != r.sample_rate {
        Some(1)
    } else if h.channels != r.channels {
        Some(2)
    } else if h.start_frame > r.start_frame {
        Some(3)
    } else {
        None
    }
}

/// Checks a header on its own: protocol major, stream shape, and that the
/// start frame lies within a known duration.
pub fn validate_header(header: &DecodeHeader) -> (r: Result<(), ProtocolError>)
    ensures
        r is Ok <==> spec_header_fault(*header) is None,
        spec_header_fault(*header) == Some(0u8) ==> (r matches Err(ProtocolError::MajorMismatch(m))
            && m == header.protocol_major),
        spec_header_fault(*header) == Some(1u8) ==> r matches Err(ProtocolError::Invalid(_)),
        spec_header_fault(*header) == Some(2u8) ==> r matches Err(ProtocolError::Invalid(_)),
{
    if header.protocol_major != PROTOCOL_MAJOR {
        return Err(ProtocolError::MajorMismatch(header.protocol_major));
    }
    if header.sample_rate == 0 || header.channels == 0 || header.channels > 32 {
        return Err(ProtocolError::Invalid(string_from_chars(&chars_vec("invalid rate or channel count"))));
    }
    if let Some(duration) = header.duration_frames {
        if header.start_frame > duration {
            return Err(ProtocolError::Invalid(string_from_chars(&chars_vec("start frame exceeds duration"))));
        }
    }
    Ok(())
}

/// Checks that a header answers the request: same format, rate and channel
/// count, and a start frame no later than requested.
pub fn validate_request(header: &DecodeHeader, request: &DecodeRequest) -> (r: Result<(), ProtocolError>)
    ensures
        r is Ok <==> spec_request_fault(*header, *request) is None,
        r is Err ==> r matches Err(ProtocolError::RequestMismatch(_)),
{
    if !matches!(header.sample_format, SampleFormat::F32le) || !matches!(request.format, SampleFormat::F32le) {
        return Err(ProtocolError::RequestMismatch(string_from_chars(&chars_vec("sample format"))));
    }
    if header.sample_rate != request.sample_rate {
        return Err(ProtocolError::RequestMismatch(string_from_chars(&chars_vec("sample rate"))));
    }
    if header.channels != request.channels {
        return Err(ProtocolError::RequestMismatch(string_from_chars(&chars_vec("channel count"))));
    }
    if header.start_frame > request.start_frame {
        return Err(ProtocolError::RequestMismatch(string_from_chars(&chars_vec("start frame"))));
    }
    Ok(())
}

/// Checks a received header on its own and then against the request.
pub fn check_received_header(header: &DecodeHeader, request: &DecodeRequest) -> (r: Result<(), ProtocolError>)
    ensures
        r is Ok <==> spec_header_fault(*header) is None && spec_request_fault(*header, *request) is None,
        spec_header_fault(*header) == Some(0u8) ==> (r matches Err(ProtocolError::MajorMismatch(m))
            && m == header.protocol_major),
        spec_header_fault(*header) is Some && spec_header_fault(*header) != Some(0u8)
            ==> r matches Err(ProtocolError::Invalid(_)),
        spec_header_fault(*header) is None && spec_request_fault(*header, *request) is Some
            ==> r matches Err(ProtocolError::RequestMismatch(_)),
{
    validate_header(header)?;
    validate_request(header, request)
}

/// The four little-endian bytes of `n`.
pub open spec fn le_bytes(n: nat) -> Seq<u8> {
    seq![(n % 256) as u8, ((n / 256) % 256) as u8, ((n / 65536) % 256) as u8, ((n / 16777216) % 256) as u8]
}

/// The value of four little-endian bytes.
pub open spec fn le_value(b: Seq<u8>) -> nat {
    b[0] as nat + b[1] as nat * 256 + b[2] as nat * 65536 + b[3] as nat * 16777216
}

/// The framed form of a header payload: its length, then the payload.
pub open spec fn spec_frame(payload: Seq<u8>) -> Seq<u8> {
    le_bytes(payload.len()) + payload
}

/// What a byte stream starts with: `Ok((payload, consumed))` for a complete
/// frame, `Truncated` when the stream ends early, `Oversized` for a length
/// past the limit (0 = truncated, 1 = oversized).
pub open spec fn spec_unframe(bytes: Seq<u8>) -> Result<(Seq<u8>, nat), u8> {
    if bytes.len() < 4 {
        Err(0)
    } else {
        let n = le_value(bytes.take(4));
        if n > MAX_HEADER_BYTES {
            Err(1)
        } else if bytes.len() < 4 + n {
            Err(0)
        } else {
            Ok((bytes.subrange(4, 4 + n as int), 4 + n))
        }
    }
}

/// Frames a serialized header: a little-endian `u32` length, then the bytes.
/// Payloads above the header limit are refused.
pub fn frame_header_payload(payload: &Vec<u8>) -> (r: Result<Vec<u8>, ProtocolError>)
    ensures
        payload@.len() > MAX_HEADER_BYTES ==> r matches Err(ProtocolError::Oversized),
        payload@.len() <= MAX_HEADER_BYTES ==> (r matches Ok(v) && v@ == spec_frame(payload@)),
{
    let n = payload.len();
    if n > MAX_HEADER_BYTES {
        return Err(ProtocolError::Oversized);
    }
    let mut out: Vec<u8> = Vec::new();
    out.push((n % 256) as u8);
    out.push(((n / 256) % 256) as u8);
    out.push(((n / 65536) % 256) as u8);
    out.push(((n / 16777216) % 256) as u8);
    let mut i: usize = 0;
    while i < n
        invariant
            i <= n,
            n == payload@.len(),
            out@ == le_bytes(n as nat) + payload@.take(i as int),
        decreases n - i,
    {
        out.push(payload[i]);
        i += 1;
        assert(out@ =~= le_bytes(n as nat) + payload@.take(i as int));
    }
    assert(payload@.take(n as int) =~= payload@);
    Ok(out)
}

/// Splits the header frame off the start of a byte stream.
pub fn unframe_header_payload(bytes: &Vec<u8>) -> (r: Result<(Vec<u8>, usize), ProtocolError>)
    ensures
        spec_unframe(bytes@) == Err::<(Seq<u8>, nat), u8>(0) ==> r matches Err(ProtocolError::Truncated),
        spec_unframe(bytes@) == Err::<(Seq<u8>, nat), u8>(1) ==> r matches Err(ProtocolError::Oversized),
        spec_unframe(bytes@) matches Ok((p, c)) ==> (r matches Ok((v, k)) && v@ == p && k == c),
{
    if bytes.len() < 4 {
        return Err(ProtocolError::Truncated);
    }
    let n: usize = bytes[0] as usize + bytes[1] as usize * 256 + bytes[2] as usize * 65536 + bytes[3] as usize
        * 16777216;
    assert(le_value(bytes@.take(4)) == n);
    if n > MAX_HEADER_BYTES {
        return Err(ProtocolError::Oversized);
    }
    if bytes.len() - 4 < n {
        return Err(ProtocolError::Truncated);
    }
    let mut out: Vec<u8> = Vec::new();
    let mut i: usize = 0;
    while i < n
        invariant
            i <= n,
            4 + n <= bytes@.len(),
            n <= MAX_HEADER_BYTES,
            out@ == bytes@.subrange(4, 4 + i),
        decreases n - i,
    {
        out.push(bytes[4 + i]);
        i += 1;
        assert(out@ =~= bytes@.subrange(4, 4 + i));
    }
    Ok((out, 4 + n))
}

/// Unframing a framed payload gives back the payload and consumes exactly
/// the frame, for any payload within the limit and whatever follows it.
pub proof fn lemma_unframe_frame(payload: Seq<u8>, rest: Seq<u8>)
    requires
        payload.len() <= MAX_HEADER_BYTES,
    ensures
        spec_unframe(spec_frame(payload) + rest) == Ok::<(Seq<u8>, nat), u8>(
            (payload, 4 + payload.len()),
        ),
{
    let n = payload.len();
    let all = spec_frame(payload) + rest;
    assert(all.take(4) =~= le_bytes(n));
    assert(le_value(le_bytes(n)) == n) by (nonlinear_arith)
        requires n <= 65536;
    assert(all.subrange(4, 4 + n as int) =~= payload);
}

} // verus!
