//! Analysis-cache bookkeeping: store parameters and their fingerprints, and
//! the byte-budget eviction plan of the cache pruner.

use sha1::Digest;
use std::path::PathBuf;
use vstd::prelude::*;

use crate::fmt::{bytes_hex, decimal, decimal_chars, extend_chars};
use crate::text::{chars_vec, string_from_chars};

verus! {

/// The SHA-1 digest of a byte sequence.
pub uninterp spec fn sha1_of(data: Seq<u8>) -> Seq<u8>;

/// SHA-1 digest (`sha1::Sha1`): the 20-byte hash of `data`.
#[verifier::external_body]
fn sha1_digest(data: &[u8]) -> (d: Vec<u8>)
    ensures
        d@ == sha1_of(data@),
        d@.len() == 20,
{
    let mut hasher = sha1::Sha1::new();
    hasher.update(data);
    hasher.finalize().to_vec()
}

/// Lower-case hexadecimal encoding (`hex::encode`): two digits per byte.
#[verifier::external_body]
fn hex_encode(data: &[u8]) -> (s: String)
    ensures
        s@ == bytes_hex(data@),
{
    hex::encode(data)
}

/// Fingerprint of a parameter set: hexadecimal SHA-1 of its JSON text.
pub open spec fn spec_params_hash(json: Seq<char>) -> Seq<char> {
    bytes_hex(sha1_of(vstd::utf8::encode_utf8(json)))
}

/// Hexadecimal SHA-1 of a parameter set's JSON text.
pub fn params_hash_of(json: &str) -> (h: String)
    ensures
        h@ == spec_params_hash(json@),
{
    let digest = sha1_digest(json.as_bytes());
    hex_encode(digest.as_slice())
}

/// Beat analysis parameters.
#[derive(Debug, Clone, Copy)]
pub struct BeatParams {
    pub hop_ms: u64,
}

/// Spectrum analysis parameters.
#[derive(Debug, Clone, Copy)]
pub struct SpectrumParams {
    pub band_count: usize,
    pub hop_ms: u64,
}

/// Waveform-proxy analysis parameters.
#[derive(Debug, Clone, Copy)]
pub struct WaveformParams {
    pub hop_ms: u64,
}

impl BeatParams {
    /// 40 ms hops.
    pub fn default_params() -> (p: BeatParams)
        ensures
            p.hop_ms == 40,
    {
        BeatParams { hop_ms: 40 }
    }
}

impl SpectrumParams {
    /// 48 bands at 40 ms hops.
    pub fn default_params() -> (p: SpectrumParams)
        ensures
            p.band_count == 48 && p.hop_ms == 40,
    {
        SpectrumParams { band_count: 48, hop_ms: 40 }
    }
}

impl WaveformParams {
    /// 20 ms hops.
    pub fn default_params() -> (p: WaveformParams)
        ensures
            p.hop_ms == 20,
    {
        WaveformParams { hop_ms: 20 }
    }
}

/// `a` raised to at least `lo`.
pub open spec fn at_least(a: nat, lo: nat) -> nat {
    if a < lo { lo } else { a }
}

/// Cached beat frames of tracks.
pub struct BeatStore {
    pub db_path: PathBuf,
    pub params: BeatParams,
}

/// Cached envelope levels of tracks.
pub struct EnvelopeStore {
    pub db_path: PathBuf,
    pub bucket_ms: u64,
}

/// Cached spectrum bands of tracks.
pub struct SpectrumStore {
    pub db_path: PathBuf,
    pub params: SpectrumParams,
}

/// Cached waveform-proxy frames of tracks.
pub struct WaveformStore {
    pub db_path: PathBuf,
    pub params: WaveformParams,
}

fn json_field_u64(out: &mut Vec<char>, name: &str, value: u64)
    ensures
        final(out)@ == old(out)@ + "\""@ + name@ + "\":"@ + decimal(value as nat),
{
    extend_chars(out, &chars_vec("\""));
    extend_chars(out, &chars_vec(name));
    extend_chars(out, &chars_vec("\":"));
    extend_chars(out, &decimal_chars(value));
}

impl BeatStore {
    /// A store over `db_path`; hops shorter than 10 ms are raised to 10 ms.
    pub fn new(db_path: PathBuf, params: BeatParams) -> (s: BeatStore)
        ensures
            s.db_path == db_path,
            s.params.hop_ms == at_least(params.hop_ms as nat, 10),
    {
        let hop_ms = if params.hop_ms < 10 { 10 } else { params.hop_ms };
        BeatStore { db_path, params: BeatParams { hop_ms } }
    }

    /// The effective parameters.
    pub fn params(&self) -> (p: BeatParams)
        ensures
            p == self.params,
    {
        self.params
    }

    /// `{"hop_ms":N}`.
    pub fn params_json(&self) -> (s: String)
        ensures
            s@ == "{"@ + "\""@ + "hop_ms"@ + "\":"@ + decimal(self.params.hop_ms as nat) + "}"@,
    {
        let mut v = chars_vec("{");
        json_field_u64(&mut v, "hop_ms", self.params.hop_ms);
        extend_chars(&mut v, &chars_vec("}"));
        string_from_chars(&v)
    }

    /// Fingerprint of the parameters.
    pub fn params_hash(&self) -> (h: String)
        ensures
            h@ == spec_params_hash("{"@ + "\""@ + "hop_ms"@ + "\":"@ + decimal(self.params.hop_ms as nat) + "}"@),
    {
        let json = self.params_json();
        params_hash_of(json.as_str())
    }
}

impl EnvelopeStore {
    /// A store over `db_path`; buckets shorter than 10 ms are raised to 10 ms.
    pub fn new(db_path: PathBuf, bucket_ms: u64) -> (s: EnvelopeStore)
        ensures
            s.db_path == db_path,
            s.bucket_ms == at_least(bucket_ms as nat, 10),
    {
        EnvelopeStore { db_path, bucket_ms: if bucket_ms < 10 { 10 } else { bucket_ms } }
    }

    /// The effective bucket width.
    pub fn bucket_ms(&self) -> (b: u64)
        ensures
            b == self.bucket_ms,
    {
        self.bucket_ms
    }

    /// `{"bucket_ms":N}`.
    pub fn params_json(&self) -> (s: String)
        ensures
            s@ == "{"@ + "\""@ + "bucket_ms"@ + "\":"@ + decimal(self.bucket_ms as nat) + "}"@,
    {
        let mut v = chars_vec("{");
        json_field_u64(&mut v, "bucket_ms", self.bucket_ms);
        extend_chars(&mut v, &chars_vec("}"));
        string_from_chars(&v)
    }

    /// Fingerprint of the parameters.
    pub fn params_hash(&self) -> (h: String)
        ensures
            h@ == spec_params_hash("{"@ + "\""@ + "bucket_ms"@ + "\":"@ + decimal(self.bucket_ms as nat) + "}"@),
    {
        let json = self.params_json();
        params_hash_of(json.as_str())
    }
}

impl SpectrumStore {
    /// A store over `db_path`; at least 8 bands and 10 ms hops.
    pub fn new(db_path: PathBuf, params: SpectrumParams) -> (s: SpectrumStore)
        ensures
            s.db_path == db_path,
            s.params.band_count == at_least(params.band_count as nat, 8),
            s.params.hop_ms == at_least(params.hop_ms as nat, 10),
    {
        let band_count = if params.band_count < 8 { 8 } else { params.band_count };
        let hop_ms = if params.hop_ms < 10 { 10 } else { params.hop_ms };
        SpectrumStore { db_path, params: SpectrumParams { band_count, hop_ms } }
    }

    /// The effective parameters.
    pub fn params(&self) -> (p: SpectrumParams)
        ensures
            p == self.params,
    {
        self.params
    }

    /// `{"band_count":N,"hop_ms":M}`.
    pub fn params_json(&self) -> (s: String)
        ensures
            s@ == "{"@ + "\""@ + "band_count"@ + "\":"@ + decimal(self.params.band_count as nat) + ","@
                + "\""@ + "hop_ms"@ + "\":"@ + decimal(self.params.hop_ms as nat) + "}"@,
    {
        let mut v = chars_vec("{");
        json_field_u64(&mut v, "band_count", self.params.band_count as u64);
        extend_chars(&mut v, &chars_vec(","));
        json_field_u64(&mut v, "hop_ms", self.params.hop_ms);
        extend_chars(&mut v, &chars_vec("}"));
        string_from_chars(&v)
    }

    /// Fingerprint of the parameters.
    pub fn params_hash(&self) -> (h: String)
        ensures
            h@ == spec_params_hash(
                "{"@ + "\""@ + "band_count"@ + "\":"@ + decimal(self.params.band_count as nat) + ","@
                    + "\""@ + "hop_ms"@ + "\":"@ + decimal(self.params.hop_ms as nat) + "}"@,
            ),
    {
        let json = self.params_json();
        params_hash_of(json.as_str())
    }
}

impl WaveformStore {
    /// A store over `db_path`; hops shorter than 10 ms are raised to 10 ms.
    pub fn new(db_path: PathBuf, params: WaveformParams) -> (s: WaveformStore)
        ensures
            s.db_path == db_path,
            s.params.hop_ms == at_least(params.hop_ms as nat, 10),
    {
        let hop_ms = if params.hop_ms < 10 { 10 } else { params.hop_ms };
        WaveformStore { db_path, params: WaveformParams { hop_ms } }
    }

    /// The effective parameters.
    pub fn params(&self) -> (p: WaveformParams)
        ensures
            p == self.params,
    {
        self.params
    }

    /// `{"hop_ms":N}`.
    pub fn params_json(&self) -> (s: String)
        ensures
            s@ == "{"@ + "\""@ + "hop_ms"@ + "\":"@ + decimal(self.params.hop_ms as nat) + "}"@,
    {
        let mut v = chars_vec("{");
        json_field_u64(&mut v, "hop_ms", self.params.hop_ms);
        extend_chars(&mut v, &chars_vec("}"));
        string_from_chars(&v)
    }

    /// Fingerprint of the parameters.
    pub fn params_hash(&self) -> (h: String)
        ensures
            h@ == spec_params_hash("{"@ + "\""@ + "hop_ms"@ + "\":"@ + decimal(self.params.hop_ms as nat) + "}"@),
    {
        let json = self.params_json();
        params_hash_of(json.as_str())
    }
}

/// Spectrum bands stored at exactly `band_count` entries: the first
/// `band_count` raw bands, padded with zeros.
pub fn normalize_bands(raw: &Vec<u8>, band_count: usize) -> (out: Vec<u8>)
    ensures
        out@.len() == band_count,
        forall|i: int| 0 <= i < band_count ==> out@[i] == if i < raw@.len() { raw@[i] } else { 0u8 },
{
    let mut out: Vec<u8> = Vec::new();
    let mut i: usize = 0;
    while i < band_count
        invariant
            i <= band_count,
            out@.len() == i,
            forall|j: int| 0 <= j < i ==> out@[j] == if j < raw@.len() { raw@[j] } else { 0u8 },
        decreases band_count - i,
    {
        if i < raw.len() {
            out.push(raw[i]);
        } else {
            out.push(0);
        }
        i += 1;
    }
    out
}

/// Summary of one prune run.
#[derive(Debug, Clone, Copy, PartialEq, Eq)]
pub struct AnalysisCachePruneResult {
    pub entries_pruned: i64,
    pub bytes_before: i64,
    pub bytes_after: i64,
}

impl AnalysisCachePruneResult {
    /// Bytes freed by the run, never negative.
    pub fn bytes_reclaimed(&self) -> (n: i64)
        requires
            i64::MIN <= self.bytes_before - self.bytes_after <= i64::MAX,
        ensures
            n == if self.bytes_before - self.bytes_after > 0 { self.bytes_before - self.bytes_after } else { 0 },
    {
        let d = self.bytes_before - self.bytes_after;
        if d > 0 { d } else { 0 }
    }
}

/// Prunes analysis cache entries by age and storage cap.
pub struct AnalysisCachePruner {
    pub db_path: PathBuf,
}

impl AnalysisCachePruner {
    /// A pruner over the cache in `db_path`.
    pub fn new(db_path: PathBuf) -> (p: AnalysisCachePruner)
        ensures
            p.db_path == db_path,
    {
        AnalysisCachePruner { db_path }
    }
}

/// Limits of one prune run, normalized: a cap of at least zero bytes, an age
/// of at least one day and at least zero protected entries.
pub fn prune_limits(max_cache_bytes: i64, max_age_days: i64, min_recent_protected: i64) -> (r: (
    i64,
    i64,
    i64,
))
    ensures
        r.0 == if max_cache_bytes < 0 { 0 } else { max_cache_bytes },
        r.1 == if max_age_days < 1 { 1 } else { max_age_days },
        r.2 == if min_recent_protected < 0 { 0 } else { min_recent_protected },
{
    (
        if max_cache_bytes < 0 { 0 } else { max_cache_bytes },
        if max_age_days < 1 { 1 } else { max_age_days },
        if min_recent_protected < 0 { 0 } else { min_recent_protected },
    )
}

/// The byte-budget eviction after `k` rows (oldest access first): entries
/// are deleted, skipping protected ones, until the running total is within
/// the cap. Yields the deleted ids and the running total.
pub open spec fn eviction_after(
    rows: Seq<(i64, i64)>,
    protected: Set<i64>,
    total: int,
    cap: int,
    k: nat,
) -> (Seq<i64>, int)
    decreases k,
{
    if k == 0 {
        (Seq::empty(), total)
    } else {
        let (deleted, t) = eviction_after(rows, protected, total, cap, (k - 1) as nat);
        let (id, size) = rows[k - 1];
        if t <= cap || protected.contains(id) {
            (deleted, t)
        } else {
            (deleted.push(id), if t - size < 0 { 0 } else { t - size })
        }
    }
}

/// The eviction over all rows.
pub open spec fn spec_eviction(rows: Seq<(i64, i64)>, protected: Set<i64>, total: int, cap: int) -> (
    Seq<i64>,
    int,
) {
    eviction_after(rows, protected, total, cap, rows.len())
}

/// Whether every deletion of the eviction keeps the running total within
/// `i64`: subtracting a negative entry size can overflow it.
pub open spec fn eviction_fits(rows: Seq<(i64, i64)>, protected: Set<i64>, total: int, cap: int) -> bool {
    forall|k: int|
        0 <= k < rows.len() ==> {
            let t = #[trigger] eviction_after(rows, protected, total, cap, k as nat).1;
            (t > cap && !protected.contains(rows[k].0)) ==> t - rows[k].1 <= i64::MAX
        }
}

/// Plans the byte-budget eviction: walks the entries from least to most
/// recently accessed and deletes unprotected ones while the cache is over
/// `max_cache_bytes`. Returns the ids to delete and the resulting total, or
/// none where subtracting an entry's size would overflow the total.
pub fn try_plan_byte_budget_eviction(
    rows: &Vec<(i64, i64)>,
    protected: &Vec<i64>,
    total_bytes: i64,
    max_cache_bytes: i64,
) -> (r: Option<(Vec<i64>, i64)>)
    requires
        max_cache_bytes >= 0,
    ensures
        r is Some <==> eviction_fits(rows@, protected@.to_set(), total_bytes as int, max_cache_bytes as int),
        r matches Some(p) ==> p.0@ == spec_eviction(rows@, protected@.to_set(), total_bytes as int, max_cache_bytes as int).0
            && p.1 == spec_eviction(rows@, protected@.to_set(), total_bytes as int, max_cache_bytes as int).1,
{
    let ghost pset = protected@.to_set();
    let mut deleted: Vec<i64> = Vec::new();
    let mut total = total_bytes;
    let mut i: usize = 0;
    while i < rows.len()
        invariant
            i <= rows.len(),
            pset == protected@.to_set(),
            (deleted@, total as int) == eviction_after(rows@, pset, total_bytes as int, max_cache_bytes as int, i as nat),
            forall|k: int| 0 <= k < i ==> {
                let t = #[trigger] eviction_after(rows@, pset, total_bytes as int, max_cache_bytes as int, k as nat).1;
                (t > max_cache_bytes && !pset.contains(rows@[k].0)) ==> t - rows@[k].1 <= i64::MAX
            },
            max_cache_bytes >= 0,
        decreases rows.len() - i,
    {
        let (id, size) = rows[i];
        let is_protected = crate::ordering::contains_id(protected, id);
        if total <= max_cache_bytes || is_protected {
        } else {
            if size < 0 && total > i64::MAX + size {
                proof {
                    let t = eviction_after(rows@, pset, total_bytes as int, max_cache_bytes as int, i as nat).1;
                    let k: int = i as int;
                    assert(eviction_after(rows@, pset, total_bytes as int, max_cache_bytes as int, k as nat).1 == t);
                    assert(t > max_cache_bytes && !pset.contains(rows@[k].0) && t - rows@[k].1 > i64::MAX);
                    assert(!eviction_fits(rows@, pset, total_bytes as int, max_cache_bytes as int));
                }
                return None;
            }
            let t = total - size;
            total = if t < 0 { 0 } else { t };
            deleted.push(id);
        }
        i += 1;
    }
    assert(rows@.len() == i);
    Some((deleted, total))
}

/// Plans the byte-budget eviction (see [`try_plan_byte_budget_eviction`]) for
/// entries whose sizes keep the running total within `i64`.
pub fn plan_byte_budget_eviction(
    rows: &Vec<(i64, i64)>,
    protected: &Vec<i64>,
    total_bytes: i64,
    max_cache_bytes: i64,
) -> (r: (Vec<i64>, i64))
    requires
        max_cache_bytes >= 0,
        eviction_fits(rows@, protected@.to_set(), total_bytes as int, max_cache_bytes as int),
    ensures
        r.0@ == spec_eviction(rows@, protected@.to_set(), total_bytes as int, max_cache_bytes as int).0,
        r.1 == spec_eviction(rows@, protected@.to_set(), total_bytes as int, max_cache_bytes as int).1,
{
    match try_plan_byte_budget_eviction(rows, protected, total_bytes, max_cache_bytes) {
        Some(p) => p,
        None => (Vec::new(), 0),
    }
}

/// The eviction stops early only once the cache is within the cap: if the
/// final total is still over the cap, every unprotected entry was deleted.
/// No protected entry is ever deleted.
pub proof fn lemma_eviction_respects_budget(
    rows: Seq<(i64, i64)>,
    protected: Set<i64>,
    total: int,
    cap: int,
    k: nat,
)
    requires
        k <= rows.len(),
    ensures
        eviction_after(rows, protected, total, cap, k).1 > cap ==> forall|j: int|
            0 <= j < k && !protected.contains(#[trigger] rows[j].0) ==> eviction_after(
                rows,
                protected,
                total,
                cap,
                k,
            ).0.contains(rows[j].0),
        forall|x: i64| eviction_after(rows, protected, total, cap, k).0.contains(x)
            ==> !protected.contains(x),
    decreases k,
{
    if k > 0 {
        lemma_eviction_respects_budget(rows, protected, total, cap, (k - 1) as nat);
        let (deleted, t) = eviction_after(rows, protected, total, cap, (k - 1) as nat);
        let (id, size) = rows[k - 1];
        let after = eviction_after(rows, protected, total, cap, k);
        if !(t <= cap || protected.contains(id)) {
            assert forall|x: i64| after.0.contains(x) implies !protected.contains(x) by {
                if x != id {
                    let m = choose|m: int| 0 <= m < after.0.len() && after.0[m] == x;
                    assert(deleted[m] == x);
                }
            }
            assert forall|j: int| 0 <= j < k && !protected.contains(#[trigger] rows[j].0) && after.1 > cap
                implies after.0.contains(rows[j].0) by {
                if j < k - 1 {
                    let m = choose|m: int| 0 <= m < deleted.len() && deleted[m] == rows[j].0;
                    assert(after.0[m] == rows[j].0);
                } else {
                    assert(after.0[deleted.len() as int] == id);
                }
            }
        } else {
            if t <= cap {
                assert(after.1 == t);
            }
        }
    }
}

} // verus!
