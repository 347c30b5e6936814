//! Bounded capture of a child process's diagnostic output: bytes are kept
//! until the limit is reached and the rest is read and dropped, so a chatty
//! helper can neither block on a full pipe nor exhaust memory.

use vstd::prelude::*;

verus! {

/// Everything read so far: the chunks in order, end to end.
pub open spec fn received(chunks: Seq<Seq<u8>>) -> Seq<u8>
    decreases chunks.len(),
{
    if chunks.len() == 0 {
        Seq::empty()
    } else {
        received(chunks.drop_last()) + chunks.last()
    }
}

/// What is kept after reading `chunks` in order with at most `limit` bytes
/// kept: each chunk adds as much of itself as still fits.
pub open spec fn captured(chunks: Seq<Seq<u8>>, limit: nat) -> Seq<u8>
    decreases chunks.len(),
{
    if chunks.len() == 0 {
        Seq::empty()
    } else {
        let before = captured(chunks.drop_last(), limit);
        let room = if before.len() >= limit { 0 } else { (limit - before.len()) as nat };
        let c = chunks.last();
        before + c.take(if c.len() < room { c.len() as int } else { room as int })
    }
}

/// Adds to `collected` as much of `chunk` as fits under `limit` bytes.
pub fn append_bounded(collected: &mut Vec<u8>, chunk: &[u8], limit: usize)
    ensures
        final(collected)@ == ({
            let room = if old(collected)@.len() >= limit { 0 } else { (limit - old(collected)@.len()) as nat };
            old(collected)@ + chunk@.take(if chunk@.len() < room { chunk@.len() as int } else { room as int })
        }),
{
    let remaining: usize = if collected.len() >= limit { 0 } else { limit - collected.len() };
    let count: usize = if chunk.len() < remaining { chunk.len() } else { remaining };
    let ghost before = collected@;
    let mut i: usize = 0;
    while i < count
        invariant
            i <= count,
            count <= chunk@.len(),
            collected@ == before + chunk@.take(i as int),
        decreases count - i,
    {
        collected.push(chunk[i]);
        i += 1;
        assert(collected@ =~= before + chunk@.take(i as int));
    }
}

/// What a bounded capture keeps is exactly the first `limit` bytes of
/// everything read (all of it when less was read), however the bytes were
/// split into chunks.
pub proof fn lemma_capture_is_prefix(chunks: Seq<Seq<u8>>, limit: nat)
    ensures
        captured(chunks, limit) == received(chunks).take(
            if received(chunks).len() < limit { received(chunks).len() as int } else { limit as int },
        ),
    decreases chunks.len(),
{
    if chunks.len() > 0 {
        let rest = chunks.drop_last();
        lemma_capture_is_prefix(rest, limit);
        let all = received(rest);
        let c = chunks.last();
        let before = captured(rest, limit);
        let n = if all.len() < limit { all.len() as int } else { limit as int };
        assert(before == all.take(n));
        let room = if before.len() >= limit { 0 } else { (limit - before.len()) as nat };
        let k = if c.len() < room { c.len() as int } else { room as int };
        let total = all + c;
        let m = if total.len() < limit { total.len() as int } else { limit as int };
        assert(captured(chunks, limit) == before + c.take(k));
        assert(received(chunks) == total);
        if all.len() < limit {
            assert(before + c.take(k) =~= total.take(m));
        } else {
            assert(k == 0);
            assert(before + c.take(k) =~= total.take(m));
        }
    }
}

} // verus!
