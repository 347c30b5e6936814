//! Pure parts of the benchmark runner: scenario names, run labels, dates.

use vstd::prelude::*;

use crate::analysis::{parse_u64, spec_parse_u64};
use crate::fmt::{decimal, decimal_chars, extend_chars};
use crate::playlist::{split_words, words};
use crate::text::{chars_vec, string_from_chars};
use crate::timespan::TimeSpan;

verus! {

/// Benchmark scenarios.
#[derive(Debug, Clone, Copy, PartialEq, Eq, Structural)]
pub enum Scenario {
    Analysis,
    Database,
    Disk,
    Tui,
}

/// Workload presets.
#[derive(Debug, Clone, Copy, PartialEq, Eq, Structural)]
pub enum Preset {
    Standard,
    Ancient,
    Smoke,
}

impl Scenario {
    /// The scenario's name.
    pub fn as_str(self) -> (r: &'static str)
        ensures
            r@ == match self {
                Scenario::Analysis => "analysis"@,
                Scenario::Database => "database"@,
                Scenario::Disk => "disk"@,
                Scenario::Tui => "tui"@,
            },
    {
        match self {
            Scenario::Analysis => "analysis",
            Scenario::Database => "database",
            Scenario::Disk => "disk",
            Scenario::Tui => "tui",
        }
    }

    /// Every scenario, in running order.
    pub fn all() -> (v: Vec<Scenario>)
        ensures
            v@ == seq![Scenario::Analysis, Scenario::Database, Scenario::Disk, Scenario::Tui],
    {
        let mut v = Vec::new();
        v.push(Scenario::Analysis);
        v.push(Scenario::Database);
        v.push(Scenario::Disk);
        v.push(Scenario::Tui);
        assert(v@ =~= seq![Scenario::Analysis, Scenario::Database, Scenario::Disk, Scenario::Tui]);
        v
    }
}

impl Preset {
    /// The preset's name.
    pub fn as_str(self) -> (r: &'static str)
        ensures
            r@ == match self {
                Preset::Standard => "standard"@,
                Preset::Ancient => "ancient"@,
                Preset::Smoke => "smoke"@,
            },
    {
        match self {
            Preset::Standard => "standard",
            Preset::Ancient => "ancient",
            Preset::Smoke => "smoke",
        }
    }
}

/// Characters kept in run labels: ASCII letters and digits, `-`, `_`, `.`.
pub open spec fn label_char_ok(c: char) -> bool {
    ('a' <= c && c <= 'z') || ('A' <= c && c <= 'Z') || ('0' <= c && c <= '9') || c == '-' || c
        == '_' || c == '.'
}

/// A run label with every other character replaced by `_`.
pub open spec fn spec_sanitize_label(s: Seq<char>) -> Seq<char> {
    s.map_values(|c: char| if label_char_ok(c) { c } else { '_' })
}

/// Makes a run label safe for file names.
pub fn sanitize_label(label: &str) -> (r: String)
    ensures
        r@ == spec_sanitize_label(label@),
        r@.len() == label@.len(),
{
    let chars = chars_vec(label);
    let mut out: Vec<char> = Vec::new();
    let mut i: usize = 0;
    while i < chars.len()
        invariant
            i <= chars.len(),
            chars@ == label@,
            out@ == spec_sanitize_label(chars@.take(i as int)),
        decreases chars.len() - i,
    {
        let c = chars[i];
        let ok = ('a' <= c && c <= 'z') || ('A' <= c && c <= 'Z') || ('0' <= c && c <= '9') || c == '-'
            || c == '_' || c == '.';
        out.push(if ok { c } else { '_' });
        i += 1;
        assert(out@ =~= spec_sanitize_label(chars@.take(i as int)));
    }
    assert(chars@.take(chars.len() as int) =~= chars@);
    string_from_chars(&out)
}

/// Validity of a `--samples` override: between 1 and 500.
pub fn samples_override_valid(samples: Option<usize>) -> (r: bool)
    ensures
        r == match samples {
            Some(n) => 1 <= n <= 500,
            None => true,
        },
{
    match samples {
        Some(n) => 1 <= n && n <= 500,
        None => true,
    }
}

/// The civil (proleptic Gregorian) date of a day count from 1970-01-01,
/// by the era decomposition of H. Hinnant's `civil_from_days`.
pub open spec fn spec_civil_from_days(z: int) -> (int, int, int) {
    let days = z + 719468;
    let era = days / 146097;
    let doe = days - era * 146097;
    let yoe = (doe - doe / 1460 + doe / 36524 - doe / 146096) / 365;
    let y = yoe + era * 400;
    let doy = doe - (365 * yoe + yoe / 4 - yoe / 100);
    let mp = (5 * doy + 2) / 153;
    let d = doy - (153 * mp + 2) / 5 + 1;
    let m = if mp < 10 { mp + 3 } else { mp - 9 };
    (if m <= 2 { y + 1 } else { y }, m, d)
}

/// Converts a day count since the Unix epoch to `(year, month, day)`.
pub fn civil_from_days(days_since_epoch: i64) -> (r: (i64, i64, i64))
    requires
        days_since_epoch <= i64::MAX - 719468,
        days_since_epoch + 719468 >= i64::MIN + 146096,
    ensures
        (r.0 as int, r.1 as int, r.2 as int) == spec_civil_from_days(days_since_epoch as int),
{
    let days = days_since_epoch + 719_468;
    let era: i64 = if days >= 0 {
        days / 146_097
    } else {
        let pos = 146_096 - days;
        assert(pos > 0);
        let q = pos / 146_097;
        proof {
            let dd = days as int;
            assert(dd / 146097 == -(q as int)) by (nonlinear_arith)
                requires dd < 0, pos == 146096 - dd, q == pos / 146097;
        }
        -q
    };
    assert(era as int == (days as int) / 146097);
    let doe = days - era * 146_097;
    assert(0 <= doe < 146097) by (nonlinear_arith)
        requires era as int == (days as int) / 146097, doe == days - era * 146097;
    let yoe = (doe - doe / 1_460 + doe / 36_524 - doe / 146_096) / 365;
    assert(0 <= yoe <= 400);
    let mut year = yoe + era * 400;
    let doy = doe - (365 * yoe + yoe / 4 - yoe / 100);
    assert(0 <= doy < 400) by (nonlinear_arith)
        requires 0 <= doe < 146097, yoe == (doe - doe / 1460 + doe / 36524 - doe / 146096) / 365,
            doy == doe - (365 * yoe + yoe / 4 - yoe / 100);
    let month_prime = (5 * doy + 2) / 153;
    let day = doy - (153 * month_prime + 2) / 5 + 1;
    let month = month_prime + if month_prime < 10 { 3 } else { -9 };
    if month <= 2 {
        year += 1;
    }
    (year, month, day)
}


/// How one benchmark case is sampled.
#[derive(Debug, Clone, Copy)]
pub struct MeasureConfig {
    pub samples: usize,
    pub warm_up: usize,
    pub target_sample_time: TimeSpan,
}

/// Workload sizes of one benchmark suite.
#[derive(Debug, Clone, Copy)]
pub struct SuiteConfig {
    pub preset: &'static str,
    pub measure: MeasureConfig,
    pub audio_seconds: u64,
    pub playlist_tracks: usize,
    pub playlist_window_rows: usize,
    pub tui_width: u16,
    pub tui_height: u16,
}

/// Resident memory of the process, when the platform reports it.
#[derive(Debug, Clone, Copy, PartialEq, Eq, Structural)]
pub struct ProcessMemory {
    pub resident_bytes: Option<u64>,
    pub peak_resident_bytes: Option<u64>,
}

/// Scanner state for splitting text into lines: finished lines, current line.
pub type LineScan = (Seq<Seq<char>>, Seq<char>);

/// `line` without one trailing carriage return.
pub open spec fn strip_cr(line: Seq<char>) -> Seq<char> {
    if line.len() > 0 && line.last() == '\r' { line.drop_last() } else { line }
}

/// One character of the line split.
pub open spec fn line_step(st: LineScan, c: char) -> LineScan {
    if c == '\n' { (st.0.push(strip_cr(st.1)), Seq::empty()) } else { (st.0, st.1.push(c)) }
}

/// The line split state after all of `s`.
pub open spec fn line_scan(s: Seq<char>) -> LineScan
    decreases s.len(),
{
    if s.len() == 0 {
        (Seq::empty(), Seq::empty())
    } else {
        line_step(line_scan(s.drop_last()), s.last())
    }
}

/// The lines of `s` (`str::lines`): split at `\n`, a `\r` before it dropped,
/// no empty line after a final newline.
pub open spec fn lines(s: Seq<char>) -> Seq<Seq<char>> {
    let st = line_scan(s);
    if st.1.len() > 0 { st.0.push(st.1) } else { st.0 }
}

/// The lines of `chars`.
pub fn split_lines(chars: &Vec<char>) -> (r: Vec<Vec<char>>)
    ensures
        r@.len() == lines(chars@).len(),
        forall|k: int| 0 <= k < r@.len() ==> #[trigger] r@[k]@ == lines(chars@)[k],
{
    let mut done: Vec<Vec<char>> = Vec::new();
    let mut current: Vec<char> = Vec::new();
    let ghost mut finished: Seq<Seq<char>> = Seq::empty();
    let mut i: usize = 0;
    while i < chars.len()
        invariant
            i <= chars.len(),
            line_scan(chars@.take(i as int)) == (finished, current@),
            done@.len() == finished.len(),
            forall|k: int| 0 <= k < done@.len() ==> #[trigger] done@[k]@ == finished[k],
        decreases chars.len() - i,
    {
        let c = chars[i];
        proof {
            assert(chars@.take(i + 1).drop_last() =~= chars@.take(i as int));
            assert(chars@.take(i + 1).last() == c);
        }
        if c == '\n' {
            let mut line = current;
            if line.len() > 0 && line[line.len() - 1] == '\r' {
                line.pop();
                proof {
                    assert(line@ =~= strip_cr(current@));
                }
            }
            proof {
                finished = finished.push(line@);
            }
            done.push(line);
            current = Vec::new();
        } else {
            current.push(c);
        }
        i += 1;
    }
    proof {
        assert(chars@.take(chars.len() as int) =~= chars@);
    }
    if current.len() > 0 {
        proof {
            finished = finished.push(current@);
        }
        done.push(current);
    }
    proof {
        assert(finished == lines(chars@));
    }
    done
}

/// The kibibyte count a status line gives after `label`, in bytes: the first
/// word after the label, read as a number and multiplied by 1024 (nothing
/// when that does not fit in 64 bits).
pub open spec fn spec_labelled_bytes(line: Seq<char>, label: Seq<char>) -> Option<u64> {
    if label.len() <= line.len() && line.take(label.len() as int) == label {
        let ws = words(line.skip(label.len() as int));
        if ws.len() > 0 {
            match spec_parse_u64(ws[0]) {
                Some(v) => if v * 1024 <= u64::MAX { Some((v * 1024) as u64) } else { None },
                None => None,
            }
        } else {
            None
        }
    } else {
        None
    }
}

/// The value of the first line of `ls` that gives one for `label`.
pub open spec fn spec_find_labelled(ls: Seq<Seq<char>>, label: Seq<char>) -> Option<u64>
    decreases ls.len(),
{
    if ls.len() == 0 {
        None
    } else {
        match spec_labelled_bytes(ls[0], label) {
            Some(v) => Some(v),
            None => spec_find_labelled(ls.drop_first(), label),
        }
    }
}

fn labelled_bytes(line: &Vec<char>, label: &Vec<char>) -> (r: Option<u64>)
    ensures
        r == spec_labelled_bytes(line@, label@),
{
    if label.len() > line.len() {
        return None;
    }
    let mut i: usize = 0;
    while i < label.len()
        invariant
            i <= label.len() <= line.len(),
            forall|j: int| 0 <= j < i ==> line@[j] == label@[j],
        decreases label.len() - i,
    {
        if line[i] != label[i] {
            assert(line@.take(label@.len() as int)[i as int] != label@[i as int]);
            return None;
        }
        i += 1;
    }
    assert(line@.take(label@.len() as int) =~= label@);
    let mut rest: Vec<char> = Vec::new();
    let mut k: usize = label.len();
    while k < line.len()
        invariant
            label.len() <= k <= line.len(),
            rest@ == line@.subrange(label.len() as int, k as int),
        decreases line.len() - k,
    {
        rest.push(line[k]);
        k += 1;
        assert(rest@ =~= line@.subrange(label.len() as int, k as int));
    }
    assert(rest@ =~= line@.skip(label.len() as int));
    let ws = split_words(&rest);
    if ws.len() == 0 {
        return None;
    }
    let first = string_from_chars(&ws[0]);
    match parse_u64(first.as_str()) {
        Some(v) => if v <= u64::MAX / 1024 {
            Some(v * 1024)
        } else {
            None
        },
        None => None,
    }
}

fn find_labelled(ls: &Vec<Vec<char>>, label: &str) -> (r: Option<u64>)
    ensures
        r == spec_find_labelled(ls@.map_values(|l: Vec<char>| l@), label@),
{
    let ghost views = ls@.map_values(|l: Vec<char>| l@);
    let label_chars = chars_vec(label);
    let mut i: usize = 0;
    assert(views.skip(0) =~= views);
    while i < ls.len()
        invariant
            i <= ls.len(),
            label_chars@ == label@,
            views == ls@.map_values(|l: Vec<char>| l@),
            spec_find_labelled(views, label@) == spec_find_labelled(views.skip(i as int), label@),
        decreases ls.len() - i,
    {
        proof {
            assert(views.skip(i as int)[0] == ls@[i as int]@);
            assert(views.skip(i as int).drop_first() =~= views.skip(i + 1));
        }
        match labelled_bytes(&ls[i], &label_chars) {
            Some(v) => {
                return Some(v);
            },
            None => {},
        }
        i += 1;
    }
    proof {
        assert(views.skip(i as int).len() == 0);
    }
    None
}

/// Resident and peak resident memory read from the text of the process
/// status file (`VmRSS:` and `VmHWM:`, in kibibytes); nothing for a value
/// missing from the text, or when there is no text.
pub fn process_memory(status: Option<&str>) -> (r: ProcessMemory)
    ensures
        match status {
            Some(text) => r.resident_bytes == spec_find_labelled(lines(text@), "VmRSS:"@)
                && r.peak_resident_bytes == spec_find_labelled(lines(text@), "VmHWM:"@),
            None => r.resident_bytes is None && r.peak_resident_bytes is None,
        },
{
    match status {
        Some(text) => {
            let chars = chars_vec(text);
            let ls = split_lines(&chars);
            proof {
                assert(ls@.map_values(|l: Vec<char>| l@) =~= lines(text@));
            }
            ProcessMemory {
                resident_bytes: find_labelled(&ls, "VmRSS:"),
                peak_resident_bytes: find_labelled(&ls, "VmHWM:"),
            }
        },
        None => ProcessMemory { resident_bytes: None, peak_resident_bytes: None },
    }
}

/// The most iterations one timed sample is calibrated to.
pub const MAX_CALIBRATION_ITERATIONS: usize = 1_048_576;

/// The next calibration round: none when the last round of `iterations` took
/// at least `target` or the ceiling is reached; else the iteration count
/// scaled by how far short it fell (two to sixteen times), capped.
pub open spec fn spec_calibration_step(iterations: nat, elapsed_nanos: nat, target_nanos: nat) -> Option<nat> {
    if elapsed_nanos >= target_nanos || iterations >= MAX_CALIBRATION_ITERATIONS {
        None
    } else {
        let ratio = target_nanos / (if elapsed_nanos == 0 { 1 } else { elapsed_nanos });
        let factor: nat = if ratio < 2 { 2 } else if ratio > 16 { 16 } else { ratio };
        let scaled = iterations * factor;
        Some(if scaled > MAX_CALIBRATION_ITERATIONS { MAX_CALIBRATION_ITERATIONS as nat } else { scaled })
    }
}

/// The next calibration round, if any.
pub fn calibration_step(iterations: usize, elapsed: TimeSpan, target: TimeSpan) -> (r: Option<usize>)
    ensures
        match spec_calibration_step(iterations as nat, elapsed.nanos(), target.nanos()) {
            Some(n) => r == Some(n as usize),
            None => r is None,
        },
{
    let elapsed_nanos = elapsed.as_nanos();
    let target_nanos = target.as_nanos();
    if elapsed_nanos >= target_nanos || iterations >= MAX_CALIBRATION_ITERATIONS {
        return None;
    }
    let divisor: u128 = if elapsed_nanos == 0 { 1 } else { elapsed_nanos };
    let ratio: u128 = target_nanos / divisor;
    let factor: usize = if ratio < 2 { 2 } else if ratio > 16 { 16 } else { ratio as usize };
    assert(iterations * factor <= MAX_CALIBRATION_ITERATIONS * 16) by (nonlinear_arith)
        requires iterations < MAX_CALIBRATION_ITERATIONS, factor <= 16;
    let scaled: usize = iterations * factor;
    Some(if scaled > MAX_CALIBRATION_ITERATIONS { MAX_CALIBRATION_ITERATIONS } else { scaled })
}

/// `digits` left-padded with zeros to `width` characters.
pub open spec fn zero_pad(digits: Seq<char>, width: nat) -> Seq<char> {
    if digits.len() >= width {
        digits
    } else {
        Seq::new((width - digits.len()) as nat, |i: int| '0') + digits
    }
}

/// The decimal digits of `n`, left-padded with zeros to `width`.
pub fn padded_decimal(n: u64, width: usize) -> (r: Vec<char>)
    ensures
        r@ == zero_pad(decimal(n as nat), width as nat),
{
    let digits = decimal_chars(n);
    if digits.len() >= width {
        return digits;
    }
    let mut out: Vec<char> = Vec::new();
    let pad = width - digits.len();
    let mut i: usize = 0;
    while i < pad
        invariant
            i <= pad,
            out@ == Seq::new(i as nat, |j: int| '0'),
        decreases pad - i,
    {
        out.push('0');
        i += 1;
        assert(out@ =~= Seq::new(i as nat, |j: int| '0'));
    }
    extend_chars(&mut out, &digits);
    out
}

/// A run's time in two renderings: ISO 8601 and a compact file-name stem.
#[derive(Debug)]
pub struct Timestamp {
    pub iso8601: String,
    pub file_stem: String,
}

/// The UTC calendar fields of a time `secs` after the Unix epoch.
pub open spec fn utc_fields(secs: nat) -> (int, int, int, int, int, int) {
    let days = secs / 86400;
    let sod = secs % 86400;
    let date = spec_civil_from_days(days as int);
    (date.0, date.1, date.2, (sod / 3600) as int, ((sod % 3600) / 60) as int, (sod % 60) as int)
}

/// A field rendered with at least `w` digits.
pub open spec fn field(v: int, w: nat) -> Seq<char> {
    zero_pad(decimal(v as nat), w)
}

/// `YYYY-MM-DDTHH:MM:SS.mmmZ` for a time after the epoch.
pub open spec fn spec_iso8601(secs: nat, millis: nat) -> Seq<char> {
    let f = utc_fields(secs);
    field(f.0, 4) + "-"@ + field(f.1, 2) + "-"@ + field(f.2, 2) + "T"@ + field(f.3, 2) + ":"@
        + field(f.4, 2) + ":"@ + field(f.5, 2) + "."@ + field(millis as int, 3) + "Z"@
}

/// `YYYYMMDDTHHMMSSmmmZ` for a time after the epoch.
pub open spec fn spec_file_stem(secs: nat, millis: nat) -> Seq<char> {
    let f = utc_fields(secs);
    field(f.0, 4) + field(f.1, 2) + field(f.2, 2) + "T"@ + field(f.3, 2) + field(f.4, 2)
        + field(f.5, 2) + field(millis as int, 3) + "Z"@
}

fn push_lit(out: &mut Vec<char>, c: char)
    ensures
        final(out)@ == old(out)@.push(c),
{
    out.push(c);
}

/// The two renderings of a UTC time `secs` seconds and `millis`
/// milliseconds after the Unix epoch.
pub fn timestamp_from_unix(secs: u64, millis: u32) -> (t: Timestamp)
    requires
        secs <= i64::MAX,
        millis < 1000,
    ensures
        t.iso8601@ == spec_iso8601(secs as nat, millis as nat),
        t.file_stem@ == spec_file_stem(secs as nat, millis as nat),
{
    let days: u64 = secs / 86_400;
    let sod: u64 = secs % 86_400;
    let date = civil_from_days(days as i64);
    proof {
        lemma_civil_fields_nonnegative(days as int);
    }
    let year = padded_decimal(date.0 as u64, 4);
    let month = padded_decimal(date.1 as u64, 2);
    let day = padded_decimal(date.2 as u64, 2);
    let hour = padded_decimal(sod / 3_600, 2);
    let minute = padded_decimal((sod % 3_600) / 60, 2);
    let second = padded_decimal(sod % 60, 2);
    let milli = padded_decimal(millis as u64, 3);
    let mut iso: Vec<char> = Vec::new();
    extend_chars(&mut iso, &year);
    push_lit(&mut iso, '-');
    extend_chars(&mut iso, &month);
    push_lit(&mut iso, '-');
    extend_chars(&mut iso, &day);
    push_lit(&mut iso, 'T');
    extend_chars(&mut iso, &hour);
    push_lit(&mut iso, ':');
    extend_chars(&mut iso, &minute);
    push_lit(&mut iso, ':');
    extend_chars(&mut iso, &second);
    push_lit(&mut iso, '.');
    extend_chars(&mut iso, &milli);
    push_lit(&mut iso, 'Z');
    let mut stem: Vec<char> = Vec::new();
    extend_chars(&mut stem, &year);
    extend_chars(&mut stem, &month);
    extend_chars(&mut stem, &day);
    push_lit(&mut stem, 'T');
    extend_chars(&mut stem, &hour);
    extend_chars(&mut stem, &minute);
    extend_chars(&mut stem, &second);
    extend_chars(&mut stem, &milli);
    push_lit(&mut stem, 'Z');
    proof {
        reveal_strlit("-");
        reveal_strlit("T");
        reveal_strlit(":");
        reveal_strlit(".");
        reveal_strlit("Z");
        assert(iso@ =~= spec_iso8601(secs as nat, millis as nat));
        assert(stem@ =~= spec_file_stem(secs as nat, millis as nat));
    }
    Timestamp { iso8601: string_from_chars(&iso), file_stem: string_from_chars(&stem) }
}

/// For days on or after the epoch the year is not negative; for every day
/// the month is 1 to 12 and the day of month 1 to 31.
pub proof fn lemma_civil_fields_nonnegative(z: int)
    requires
        z >= 0,
    ensures
        spec_civil_from_days(z).0 >= 1970,
        1 <= spec_civil_from_days(z).1 <= 12,
        1 <= spec_civil_from_days(z).2 <= 31,
{
    let days = z + 719468;
    let era = days / 146097;
    let doe = days - era * 146097;
    assert(era >= 4 && 0 <= doe < 146097) by (nonlinear_arith)
        requires days >= 719468, era == days / 146097, doe == days - era * 146097;
    let yoe = (doe - doe / 1460 + doe / 36524 - doe / 146096) / 365;
    assert(0 <= yoe <= 399) by (nonlinear_arith)
        requires 0 <= doe < 146097, yoe == (doe - doe / 1460 + doe / 36524 - doe / 146096) / 365;
    let doy = doe - (365 * yoe + yoe / 4 - yoe / 100);
    assert(0 <= doy <= 365) by (nonlinear_arith)
        requires 0 <= doe < 146097, yoe == (doe - doe / 1460 + doe / 36524 - doe / 146096) / 365,
            doy == doe - (365 * yoe + yoe / 4 - yoe / 100);
    let mp = (5 * doy + 2) / 153;
    assert(0 <= mp <= 11);
    let d = doy - (153 * mp + 2) / 5 + 1;
    assert(1 <= d <= 31) by (nonlinear_arith)
        requires 0 <= doy <= 365, mp == (5 * doy + 2) / 153, d == doy - (153 * mp + 2) / 5 + 1;
}


/// The preset a run uses: `--quick` selects the smoke preset.
pub fn effective_preset(preset: Preset, quick: bool) -> (r: Preset)
    ensures
        r == if quick { Preset::Smoke } else { preset },
{
    if quick {
        Preset::Smoke
    } else {
        preset
    }
}

/// The workload of a preset: (samples, warm-up rounds, target sample time in
/// ms, seconds of audio, playlist tracks, window rows, terminal width,
/// terminal height).
pub open spec fn preset_workload(p: Preset) -> (usize, usize, u64, u64, usize, usize, u16, u16) {
    match p {
        Preset::Standard => (25, 3, 20, 30, 10_000, 100, 120, 40),
        Preset::Ancient => (9, 1, 10, 10, 2_000, 50, 80, 24),
        Preset::Smoke => (5, 1, 5, 3, 500, 25, 100, 30),
    }
}

/// The suite configuration of a preset, with an optional sample count
/// overriding the preset's.
pub fn suite_config(preset: Preset, samples: Option<usize>) -> (c: SuiteConfig)
    ensures
        c.preset@ == match preset {
            Preset::Standard => "standard"@,
            Preset::Ancient => "ancient"@,
            Preset::Smoke => "smoke"@,
        },
        c.measure.samples == match samples { Some(n) => n, None => preset_workload(preset).0 },
        c.measure.warm_up == preset_workload(preset).1,
        c.measure.target_sample_time.nanos() == preset_workload(preset).2 * 1_000_000,
        c.audio_seconds == preset_workload(preset).3,
        c.playlist_tracks == preset_workload(preset).4,
        c.playlist_window_rows == preset_workload(preset).5,
        c.tui_width == preset_workload(preset).6,
        c.tui_height == preset_workload(preset).7,
{
    let (default_samples, warm_up, target_ms, audio_seconds, playlist_tracks, window_rows, width, height): (
        usize,
        usize,
        u64,
        u64,
        usize,
        usize,
        u16,
        u16,
    ) = match preset {
        Preset::Standard => (25, 3, 20, 30, 10_000, 100, 120, 40),
        Preset::Ancient => (9, 1, 10, 10, 2_000, 50, 80, 24),
        Preset::Smoke => (5, 1, 5, 3, 500, 25, 100, 30),
    };
    let chosen = match samples {
        Some(n) => n,
        None => default_samples,
    };
    SuiteConfig {
        preset: preset.as_str(),
        measure: MeasureConfig {
            samples: chosen,
            warm_up,
            target_sample_time: TimeSpan::from_millis(target_ms),
        },
        audio_seconds,
        playlist_tracks,
        playlist_window_rows: window_rows,
        tui_width: width,
        tui_height: height,
    }
}

/// The scenarios a run covers, in running order: all of them when none was
/// asked for, else each asked-for one once.
pub open spec fn spec_selected_scenarios(requested: Seq<Scenario>) -> Seq<Scenario> {
    let all = seq![Scenario::Analysis, Scenario::Database, Scenario::Disk, Scenario::Tui];
    if requested.len() == 0 {
        all
    } else {
        all.filter(|s: Scenario| requested.contains(s))
    }
}

/// The scenarios a run covers, in running order.
pub fn selected_scenarios(requested: &Vec<Scenario>) -> (r: Vec<Scenario>)
    ensures
        r@ == spec_selected_scenarios(requested@),
{
    let all = Scenario::all();
    if requested.len() == 0 {
        return all;
    }
    let ghost pred = |s: Scenario| requested@.contains(s);
    let mut out: Vec<Scenario> = Vec::new();
    let mut i: usize = 0;
    while i < all.len()
        invariant
            i <= all.len(),
            all@ == seq![Scenario::Analysis, Scenario::Database, Scenario::Disk, Scenario::Tui],
            pred == |s: Scenario| requested@.contains(s),
            out@ == all@.take(i as int).filter(pred),
        decreases all.len() - i,
    {
        let s = all[i];
        let mut found = false;
        let mut k: usize = 0;
        while k < requested.len()
            invariant
                k <= requested.len(),
                found == exists|j: int| 0 <= j < k && requested@[j] == s,
            decreases requested.len() - k,
        {
            if requested[k] == s {
                found = true;
            }
            k += 1;
        }
        proof {
            assert(all@.take(i + 1) =~= all@.take(i as int).push(s));
            all@.take(i as int).lemma_filter_push(s, pred);
            assert(found == requested@.contains(s));
        }
        if found {
            out.push(s);
        }
        i += 1;
    }
    assert(all@.take(4) =~= all@);
    out
}

/// The run identifier: `rust-<label>-<stem>` with the label made safe for
/// file names, or `rust-<stem>` when there is no label or it is empty.
pub open spec fn spec_run_id(label: Option<Seq<char>>, stem: Seq<char>) -> Seq<char> {
    match label {
        Some(l) => if l.len() > 0 {
            "rust-"@ + spec_sanitize_label(l) + "-"@ + stem
        } else {
            "rust-"@ + stem
        },
        None => "rust-"@ + stem,
    }
}

/// The run identifier.
pub fn run_id(label: Option<&str>, stem: &str) -> (r: String)
    ensures
        r@ == spec_run_id(match label { Some(l) => Some(l@), None => None }, stem@),
{
    let mut out = crate::text::string_from_str("rust-");
    match label {
        Some(l) => {
            let safe = sanitize_label(l);
            if safe.as_str().unicode_len() > 0 {
                crate::text::append_str(&mut out, safe.as_str());
                crate::text::append_str(&mut out, "-");
            }
        },
        None => {},
    }
    crate::text::append_str(&mut out, stem);
    out
}


/// The day count since 1970-01-01 of a proleptic Gregorian date (the inverse
/// of the civil conversion, in the same era decomposition).
pub open spec fn days_from_civil(y: int, m: int, d: int) -> int {
    let yy = if m <= 2 { y - 1 } else { y };
    let era = yy / 400;
    let yoe = yy - era * 400;
    let mp = (m + 9) % 12;
    let doy = (153 * mp + 2) / 5 + d - 1;
    let doe = yoe * 365 + yoe / 4 - yoe / 100 + doy;
    era * 146097 + doe - 719468
}

/// Every day count converts to a date that converts back to the same day
/// count: the civil conversion loses nothing.
pub proof fn lemma_civil_round_trip(z: int)
    ensures
        ({
            let (y, m, d) = spec_civil_from_days(z);
            days_from_civil(y, m, d) == z
        }),
{
    let days = z + 719468;
    let era = days / 146097;
    let doe = days - era * 146097;
    assert(0 <= doe < 146097);
    let yoe = (doe - doe / 1460 + doe / 36524 - doe / 146096) / 365;
    assert(0 <= yoe <= 399) by (nonlinear_arith)
        requires 0 <= doe < 146097, yoe == (doe - doe / 1460 + doe / 36524 - doe / 146096) / 365;
    let y = yoe + era * 400;
    let doy = doe - (365 * yoe + yoe / 4 - yoe / 100);
    assert(0 <= doy <= 365) by (nonlinear_arith)
        requires 0 <= doe < 146097, yoe == (doe - doe / 1460 + doe / 36524 - doe / 146096) / 365,
            doy == doe - (365 * yoe + yoe / 4 - yoe / 100);
    let mp = (5 * doy + 2) / 153;
    assert(0 <= mp <= 11);
    let m = if mp < 10 { mp + 3 } else { mp - 9 };
    let d = doy - (153 * mp + 2) / 5 + 1;
    let yr = if m <= 2 { y + 1 } else { y };
    assert(spec_civil_from_days(z) == (yr, m, d));
    let yy = if m <= 2 { yr - 1 } else { yr };
    assert(yy == y);
    assert(yy / 400 == era) by (nonlinear_arith)
        requires yy == yoe + era * 400, 0 <= yoe <= 399;
    assert((m + 9) % 12 == mp);
}

} // verus!
