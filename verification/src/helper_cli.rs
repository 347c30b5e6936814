//! The decoder helper's command line: `capabilities --json`, or
//! `decode --input <PATH> --start-ms <U64> --sample-rate <U32> --channels 2
//! --format f32le`. Malformed requests are refused before any media is
//! touched.

use vstd::prelude::*;

use crate::analysis::{parse_u64, spec_parse_u64};
use crate::protocol::ExitCode;
use crate::text::{chars_eq, chars_vec, string_from_str};

verus! {

/// A checked decode request. The input path is given by its position in the
/// argument list, so that a path that is not valid Unicode reaches the
/// decoder unchanged.
#[derive(Debug, Clone, Copy, PartialEq, Eq, Structural)]
pub struct DecodeArgs {
    pub input_index: usize,
    pub start_ms: u64,
    pub sample_rate: u32,
    pub channels: u16,
}

/// What the helper was asked to do.
#[derive(Debug, Clone, Copy, PartialEq, Eq, Structural)]
pub enum HelperCommand {
    Capabilities,
    Decode(DecodeArgs),
}

/// Decode options as read so far: input position, start, rate, channels and
/// whether the last `--format` was `f32le` (none when not given).
pub type OptionScan = (Option<int>, Option<u64>, Option<u32>, Option<u16>, Option<bool>);

/// `str::parse::<u32>`.
pub open spec fn spec_parse_u32(s: Seq<char>) -> Option<u32> {
    match spec_parse_u64(s) {
        Some(v) => if v <= u32::MAX { Some(v as u32) } else { None },
        None => None,
    }
}

/// `str::parse::<u16>`.
pub open spec fn spec_parse_u16(s: Seq<char>) -> Option<u16> {
    match spec_parse_u64(s) {
        Some(v) => if v <= u16::MAX { Some(v as u16) } else { None },
        None => None,
    }
}

/// Reads the flag/value pairs of `args` from position `i` on. Each flag
/// needs a value; a later flag overrides an earlier one, and an unreadable
/// number clears the option.
pub open spec fn scan_options(args: Seq<Seq<char>>, i: int, st: OptionScan) -> Result<OptionScan, Seq<char>>
    decreases args.len() - i,
{
    if i < 0 || i >= args.len() {
        Ok(st)
    } else if i + 1 >= args.len() {
        Err("missing decode argument"@)
    } else {
        let flag = args[i];
        let value = args[i + 1];
        if flag == "--input"@ {
            scan_options(args, i + 2, (Some(i + 1), st.1, st.2, st.3, st.4))
        } else if flag == "--start-ms"@ {
            scan_options(args, i + 2, (st.0, spec_parse_u64(value), st.2, st.3, st.4))
        } else if flag == "--sample-rate"@ {
            scan_options(args, i + 2, (st.0, st.1, spec_parse_u32(value), st.3, st.4))
        } else if flag == "--channels"@ {
            scan_options(args, i + 2, (st.0, st.1, st.2, spec_parse_u16(value), st.4))
        } else if flag == "--format"@ {
            scan_options(args, i + 2, (st.0, st.1, st.2, st.3, Some(value == "f32le"@)))
        } else {
            Err("unknown decode argument"@)
        }
    }
}

/// The decode request that the options after `decode` (from position 1 of
/// `args`) make, or why they are refused.
pub open spec fn spec_decode_args(args: Seq<Seq<char>>) -> Result<DecodeArgs, Seq<char>> {
    match scan_options(args, 1, (None, None, None, None, None)) {
        Err(e) => Err(e),
        Ok(st) => match st.0 {
            None => Err("--input is required"@),
            Some(input) => match st.2 {
                None => Err("--sample-rate is invalid"@),
                Some(rate) => if st.3 != Some(2u16) || st.4 != Some(true) || st.1 is None || rate == 0 {
                    Err("decode requires stereo f32le and a valid start/rate"@)
                } else {
                    Ok(DecodeArgs {
                        input_index: input as usize,
                        start_ms: st.1.unwrap(),
                        sample_rate: rate,
                        channels: 2,
                    })
                },
            },
        },
    }
}

/// The usage line.
pub open spec fn usage_text() -> Seq<char> {
    "usage: capabilities --json | decode --input <PATH> --start-ms <U64> --sample-rate <U32> --channels 2 --format f32le"@
}

/// The command that `args` (without the program name) give, or why they are
/// refused.
pub open spec fn spec_helper_command(args: Seq<Seq<char>>) -> Result<HelperCommand, Seq<char>> {
    if args.len() > 0 && args[0] == "capabilities"@ {
        if args.len() == 2 && args[1] == "--json"@ {
            Ok(HelperCommand::Capabilities)
        } else {
            Err("usage: capabilities --json"@)
        }
    } else if args.len() > 0 && args[0] == "decode"@ {
        match spec_decode_args(args) {
            Ok(d) => Ok(HelperCommand::Decode(d)),
            Err(e) => Err(e),
        }
    } else {
        Err(usage_text())
    }
}

fn text_is(s: &String, lit: &str) -> (r: bool)
    ensures
        r == (s@ == lit@),
{
    let a = chars_vec(s.as_str());
    let b = chars_vec(lit);
    chars_eq(&a, &b)
}

/// `str::parse::<u32>`.
pub fn parse_u32(s: &str) -> (r: Option<u32>)
    ensures
        r == spec_parse_u32(s@),
{
    match parse_u64(s) {
        Some(v) => if v <= u32::MAX as u64 {
            Some(v as u32)
        } else {
            None
        },
        None => None,
    }
}

/// `str::parse::<u16>`.
pub fn parse_u16(s: &str) -> (r: Option<u16>)
    ensures
        r == spec_parse_u16(s@),
{
    match parse_u64(s) {
        Some(v) => if v <= u16::MAX as u64 {
            Some(v as u16)
        } else {
            None
        },
        None => None,
    }
}

fn invalid(message: &str) -> (r: (ExitCode, String))
    ensures
        r.0 == ExitCode::InvalidArguments,
        r.1@ == message@,
{
    (ExitCode::InvalidArguments, string_from_str(message))
}

/// Reads the decode options that follow `decode` in `args`.
pub fn parse_decode_args(args: &Vec<String>) -> (r: Result<DecodeArgs, (ExitCode, String)>)
    ensures
        match spec_decode_args(args@.map_values(|a: String| a@)) {
            Ok(d) => r == Ok::<DecodeArgs, (ExitCode, String)>(d),
            Err(m) => r matches Err((code, text)) && code == ExitCode::InvalidArguments && text@ == m,
        },
        r matches Ok(d) ==> d.input_index < args.len(),
{
    let ghost views = args@.map_values(|a: String| a@);
    let mut input: Option<usize> = None;
    let mut start_ms: Option<u64> = None;
    let mut sample_rate: Option<u32> = None;
    let mut channels: Option<u16> = None;
    let mut format_ok: Option<bool> = None;
    let mut i: usize = 1;
    while i < args.len()
        invariant
            1 <= i,
            views == args@.map_values(|a: String| a@),
            input matches Some(k) ==> k < args.len(),
            scan_options(views, 1, (None, None, None, None, None)) == scan_options(
                views,
                i as int,
                (match input { Some(k) => Some(k as int), None => None }, start_ms, sample_rate, channels, format_ok),
            ),
        decreases args.len() - i,
    {
        if i + 1 >= args.len() {
            return Err(invalid("missing decode argument"));
        }
        let flag = &args[i];
        let value = &args[i + 1];
        proof {
            assert(views[i as int] == flag@);
            assert(views[i + 1] == value@);
        }
        if text_is(flag, "--input") {
            input = Some(i + 1);
        } else if text_is(flag, "--start-ms") {
            start_ms = parse_u64(value.as_str());
        } else if text_is(flag, "--sample-rate") {
            sample_rate = parse_u32(value.as_str());
        } else if text_is(flag, "--channels") {
            channels = parse_u16(value.as_str());
        } else if text_is(flag, "--format") {
            format_ok = Some(text_is(value, "f32le"));
        } else {
            return Err(invalid("unknown decode argument"));
        }
        i += 2;
    }
    let input_index = match input {
        Some(k) => k,
        None => {
            return Err(invalid("--input is required"));
        },
    };
    let rate = match sample_rate {
        Some(r) => r,
        None => {
            return Err(invalid("--sample-rate is invalid"));
        },
    };
    let start = match start_ms {
        Some(s) => s,
        None => {
            return Err(invalid("decode requires stereo f32le and a valid start/rate"));
        },
    };
    if channels != Some(2u16) || format_ok != Some(true) || rate == 0 {
        return Err(invalid("decode requires stereo f32le and a valid start/rate"));
    }
    Ok(DecodeArgs { input_index, start_ms: start, sample_rate: rate, channels: 2 })
}

/// Reads the helper's command line (without the program name).
pub fn parse_helper_command(args: &Vec<String>) -> (r: Result<HelperCommand, (ExitCode, String)>)
    ensures
        match spec_helper_command(args@.map_values(|a: String| a@)) {
            Ok(c) => r == Ok::<HelperCommand, (ExitCode, String)>(c),
            Err(m) => r matches Err((code, text)) && code == ExitCode::InvalidArguments && text@ == m,
        },
        r matches Ok(HelperCommand::Decode(d)) ==> d.input_index < args.len(),
{
    let ghost views = args@.map_values(|a: String| a@);
    if args.len() > 0 && text_is(&args[0], "capabilities") {
        if args.len() == 2 && text_is(&args[1], "--json") {
            return Ok(HelperCommand::Capabilities);
        }
        return Err(invalid("usage: capabilities --json"));
    }
    if args.len() > 0 && text_is(&args[0], "decode") {
        return match parse_decode_args(args) {
            Ok(d) => Ok(HelperCommand::Decode(d)),
            Err(e) => Err(e),
        };
    }
    Err(invalid("usage: capabilities --json | decode --input <PATH> --start-ms <U64> --sample-rate <U32> --channels 2 --format f32le"))
}

/// An accepted decode request always asks for stereo at a nonzero rate.
pub proof fn lemma_accepted_decode_is_stereo(args: Seq<Seq<char>>)
    ensures
        spec_decode_args(args) matches Ok(d) ==> d.channels == 2 && d.sample_rate > 0,
{
}

} // verus!
