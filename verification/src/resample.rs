//! Which decoded samples the native decoder emits when it converts a stream
//! to the requested rate and channel count: a phase accumulator repeats or
//! skips whole source frames (nearest-neighbour rate conversion), and each
//! output channel takes the source channel of the same number, or the last
//! source channel when there are fewer. The phase carries from one packet
//! to the next.

use vstd::prelude::*;

verus! {

/// The source channel that output channel `c` reads (`sc` source channels).
pub open spec fn source_channel(c: int, sc: nat) -> int {
    if c < sc - 1 { c } else { sc - 1 }
}

/// Sample positions (in the interleaved packet) of one output frame taken
/// from source frame `f`.
pub open spec fn frame_indices(f: int, sc: nat, tc: nat) -> Seq<int> {
    Seq::new(tc, |c: int| f * sc + source_channel(c, sc))
}

/// `k` output frames taken from source frame `f`.
pub open spec fn repeat_frame(k: nat, f: int, sc: nat, tc: nat) -> Seq<int>
    decreases k,
{
    if k == 0 {
        Seq::empty()
    } else {
        repeat_frame((k - 1) as nat, f, sc, tc) + frame_indices(f, sc, tc)
    }
}

/// The sample positions emitted for the first `n` source frames of a packet
/// entered at phase `p`, and the phase after them. Each source frame adds
/// the target rate to the phase and is emitted once for every whole source
/// rate the phase then holds.
pub open spec fn plan(n: nat, p: nat, from: nat, to: nat, sc: nat, tc: nat) -> (Seq<int>, nat)
    decreases n,
{
    if n == 0 {
        (Seq::empty(), p)
    } else {
        let (s, q) = plan((n - 1) as nat, p, from, to, sc, tc);
        (s + repeat_frame((q + to) / from, n - 1, sc, tc), (q + to) % from)
    }
}

/// Converts one packet of `frames` source frames (`source_channels` each,
/// at `source_rate`) to `target_channels` at `target_rate`, entering at
/// `phase`. Returns the packet positions of the samples to emit, in order,
/// and the phase for the next packet.
pub fn resample_positions(
    frames: usize,
    source_channels: u16,
    target_channels: u16,
    source_rate: u32,
    target_rate: u32,
    phase: u64,
) -> (r: (Vec<usize>, u64))
    requires
        source_channels > 0,
        source_rate > 0,
        phase < source_rate,
        frames * source_channels <= usize::MAX,
        frames * target_rate / (source_rate as int) * target_channels + target_channels <= usize::MAX,
    ensures
        ({
            let (s, q) = plan(frames as nat, phase as nat, source_rate as nat, target_rate as nat, source_channels as nat, target_channels as nat);
            &&& r.0@.len() == s.len()
            &&& forall|j: int| 0 <= j < s.len() ==> r.0@[j] == #[trigger] s[j]
            &&& r.1 == q
        }),
        r.1 < source_rate,
{
    let ghost from = source_rate as nat;
    let ghost to = target_rate as nat;
    let ghost sc = source_channels as nat;
    let ghost tc = target_channels as nat;
    let mut out: Vec<usize> = Vec::new();
    let mut current: u64 = phase;
    let mut f: usize = 0;
    while f < frames
        invariant
            f <= frames,
            from == source_rate,
            to == target_rate,
            sc == source_channels,
            tc == target_channels,
            source_channels > 0,
            source_rate > 0,
            frames * source_channels <= usize::MAX,
            frames * target_rate / (source_rate as int) * target_channels + target_channels <= usize::MAX,
            current < source_rate,
            phase < source_rate,
            plan(f as nat, phase as nat, from, to, sc, tc).1 == current,
            out@.len() == plan(f as nat, phase as nat, from, to, sc, tc).0.len(),
            forall|j: int| 0 <= j < out@.len() ==> out@[j] == #[trigger] plan(f as nat, phase as nat, from, to, sc, tc).0[j],
        decreases frames - f,
    {
        let ghost before = plan(f as nat, phase as nat, from, to, sc, tc);
        let total: u64 = current + target_rate as u64;
        let copies: u64 = total / source_rate as u64;
        let next: u64 = total % source_rate as u64;
        proof {
            lemma_plan_count(f as nat, phase as nat, from, to, sc, tc);
            lemma_plan_count((f + 1) as nat, phase as nat, from, to, sc, tc);
            lemma_count_bound((f + 1) as nat, frames as nat, phase as nat, from, to);
            assert((((phase + (f + 1) * to) as int) / (from as int)) * tc <= (frames * target_rate / (source_rate as int)) * target_channels + tc) by (nonlinear_arith)
                requires
                    ((phase + (f + 1) * to) as int) / (from as int) <= frames * target_rate / (source_rate as int) + 1,
                    tc >= 0,
                    tc == target_channels;
            lemma_repeat_len(copies as nat, f as int, sc, tc);
            assert(plan((f + 1) as nat, phase as nat, from, to, sc, tc).0 == before.0 + repeat_frame(copies as nat, f as int, sc, tc));
        }
        assert(f * source_channels <= frames * source_channels) by (nonlinear_arith)
            requires f < frames;
        let base: usize = f * source_channels as usize;
        let mut e: u64 = 0;
        let ghost mut emitted: Seq<int> = before.0;
        while e < copies
            invariant
                e <= copies,
                f < frames,
                copies == ((current + to) as int) / (from as int),
                from == source_rate,
                to == target_rate,
                sc == source_channels,
                tc == target_channels,
                source_channels > 0,
                base == f * source_channels,
                frames * source_channels <= usize::MAX,
                emitted == before.0 + repeat_frame(e as nat, f as int, sc, tc),
                out@.len() == emitted.len(),
                forall|j: int| 0 <= j < out@.len() ==> out@[j] == #[trigger] emitted[j],
                out@.len() == before.0.len() + e * tc,
                before.0.len() + copies * tc <= usize::MAX,
            decreases copies - e,
        {
            let mut c: u16 = 0;
            let ghost start = out@.len();
            assert(before.0.len() + (e + 1) * tc <= usize::MAX) by (nonlinear_arith)
                requires before.0.len() + copies * tc <= usize::MAX, e < copies, tc >= 0;
            assert(e * tc + tc == (e + 1) * tc) by (nonlinear_arith);
            while c < target_channels
                invariant
                    c <= target_channels,
                    start == before.0.len() + e * tc,
                    out@.len() == start + c,
                    start + tc <= usize::MAX,
                    f < frames,
                    base == f * source_channels,
                    source_channels > 0,
                    frames * source_channels <= usize::MAX,
                    sc == source_channels,
                    tc == target_channels,
                    forall|j: int| 0 <= j < start ==> out@[j] == #[trigger] emitted[j],
                    forall|j: int| start <= j < start + c ==> out@[j] == #[trigger] frame_indices(f as int, sc, tc)[j - start],
                decreases target_channels - c,
            {
                let channel: usize = if c < source_channels - 1 { c as usize } else { (source_channels - 1) as usize };
                assert(base + channel < frames * source_channels) by (nonlinear_arith)
                    requires base == f * source_channels, f < frames, channel < source_channels;
                out.push(base + channel);
                c += 1;
            }
            proof {
                let added = frame_indices(f as int, sc, tc);
                assert(repeat_frame((e + 1) as nat, f as int, sc, tc) == repeat_frame(e as nat, f as int, sc, tc) + added);
                emitted = emitted + added;
                assert(emitted =~= before.0 + repeat_frame((e + 1) as nat, f as int, sc, tc));
                assert((e + 1) * tc == e * tc + tc) by (nonlinear_arith);
            }
            e += 1;
        }
        current = next;
        f += 1;
        proof {
            assert(plan(f as nat, phase as nat, from, to, sc, tc) == (before.0 + repeat_frame(copies as nat, (f - 1) as int, sc, tc), next as nat));
        }
    }
    (out, current)
}

/// A packet of `k` output frames holds `k` times the target channel count
/// of samples.
proof fn lemma_repeat_len(k: nat, f: int, sc: nat, tc: nat)
    ensures
        repeat_frame(k, f, sc, tc).len() == k * tc,
    decreases k,
{
    if k > 0 {
        let prev = (k - 1) as nat;
        lemma_repeat_len(prev, f, sc, tc);
        assert(frame_indices(f, sc, tc).len() == tc);
        assert(repeat_frame(k, f, sc, tc).len() == repeat_frame(prev, f, sc, tc).len() + tc);
        assert(k * tc == prev * tc + tc) by (nonlinear_arith)
            requires prev + 1 == k;
    } else {
        assert(k * tc == 0) by (nonlinear_arith)
            requires k == 0;
    }
}

/// The emitted frame count and the phase depend only on how many source
/// frames went in: `n` frames from phase `p` emit `(p + n·to) / from`
/// frames and leave the phase at `(p + n·to) % from`.
pub proof fn lemma_plan_count(n: nat, p: nat, from: nat, to: nat, sc: nat, tc: nat)
    requires
        from > 0,
        p < from,
    ensures
        plan(n, p, from, to, sc, tc).0.len() == ((p + n * to) as int) / (from as int) * tc,
        plan(n, p, from, to, sc, tc).1 == ((p + n * to) as int) % (from as int),
    decreases n,
{
    if n > 0 {
        lemma_plan_count((n - 1) as nat, p, from, to, sc, tc);
        let (s, q) = plan((n - 1) as nat, p, from, to, sc, tc);
        let k = (q + to) / from;
        lemma_repeat_len(k, n - 1, sc, tc);
        let a: int = (p + (n - 1) * to) as int;
        let big = a / (from as int);
        assert(a == big * from + q) by (nonlinear_arith)
            requires big == a / (from as int), q == a % (from as int), from > 0;
        assert(p + n * to == a + to) by (nonlinear_arith)
            requires a == p + (n - 1) * to, n > 0;
        assert(((a + to) as int) / (from as int) == big + k && ((a + to) as int) % (from as int) == ((q + to) as int) % (from as int)) by (nonlinear_arith)
            requires a == big * from + q, k == ((q + to) as int) / (from as int), from > 0, 0 <= q < from, to >= 0;
        assert(big * tc + k * tc == (big + k) * tc) by (nonlinear_arith);
    } else {
        assert(((p + n * to) as int) / (from as int) * tc == 0 && ((p + n * to) as int) % (from as int) == p) by (nonlinear_arith)
            requires n == 0, p < from, from > 0;
    }
}

proof fn lemma_count_bound(m: nat, n: nat, p: nat, from: nat, to: nat)
    requires
        from > 0,
        p < from,
        m <= n,
    ensures
        ((p + m * to) as int) / (from as int) <= ((n * to) as int) / (from as int) + 1,
{
    assert(m * to <= n * to) by (nonlinear_arith)
        requires m <= n;
    assert(((p + m * to) as int) / (from as int) <= ((from + n * to) as int) / (from as int)) by (nonlinear_arith)
        requires p < from, m * to <= n * to, from > 0;
    assert(((from + n * to) as int) / (from as int) == 1 + ((n * to) as int) / (from as int)) by (nonlinear_arith)
        requires from > 0;
}

/// Splitting a stream into packets changes nothing: converting `a` frames
/// and then `b` more from the phase the first left emits as many frames,
/// and ends at the same phase, as converting all `a + b` at once.
pub proof fn lemma_packets_compose(a: nat, b: nat, p: nat, from: nat, to: nat, sc: nat, tc: nat)
    requires
        from > 0,
        p < from,
    ensures
        ({
            let first = plan(a, p, from, to, sc, tc);
            let second = plan(b, first.1, from, to, sc, tc);
            let whole = plan(a + b, p, from, to, sc, tc);
            &&& first.0.len() + second.0.len() == whole.0.len()
            &&& second.1 == whole.1
        }),
{
    let first = plan(a, p, from, to, sc, tc);
    lemma_plan_count(a, p, from, to, sc, tc);
    let q = first.1;
    assert(q < from) by (nonlinear_arith)
        requires q == ((p + a * to) as int) % (from as int), from > 0;
    lemma_plan_count(b, q, from, to, sc, tc);
    lemma_plan_count(a + b, p, from, to, sc, tc);
    let x: int = (p + a * to) as int;
    let big = x / (from as int);
    assert(x == big * from + q) by (nonlinear_arith)
        requires big == x / (from as int), q == x % (from as int), from > 0;
    assert(p + (a + b) * to == x + b * to) by (nonlinear_arith)
        requires x == p + a * to;
    let k = ((q + b * to) as int) / (from as int);
    assert(((x + b * to) as int) / (from as int) == big + k && ((x + b * to) as int) % (from as int) == ((q + b * to) as int) % (from as int)) by (nonlinear_arith)
        requires x == big * from + q, k == ((q + b * to) as int) / (from as int), from > 0, 0 <= q < from, b * to >= 0;
    assert(big * tc + k * tc == (big + k) * tc) by (nonlinear_arith);
}

} // verus!
