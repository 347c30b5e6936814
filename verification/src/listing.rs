//! Order of the folder browser's entries: directories first, then files,
//! each group by name ignoring ASCII case.

use vstd::prelude::*;

use crate::navigation::FsEntry;
use crate::text::{ascii_lower_seq, ascii_lower_vec, chars_eq, chars_vec};

verus! {

broadcast use {vstd::multiset::group_multiset_axioms, vstd::seq_lib::group_to_multiset_ensures};

/// Lexicographic order of character sequences by code point, which is the
/// byte order of their UTF-8 encodings (`str::cmp`).
pub open spec fn lex_lt(a: Seq<char>, b: Seq<char>) -> bool
    decreases a.len(),
{
    if b.len() == 0 {
        false
    } else if a.len() == 0 {
        true
    } else if a[0] != b[0] {
        a[0] < b[0]
    } else {
        lex_lt(a.drop_first(), b.drop_first())
    }
}

/// No sequence comes before itself.
pub proof fn lemma_lex_irreflexive(a: Seq<char>)
    ensures
        !lex_lt(a, a),
    decreases a.len(),
{
    if a.len() > 0 {
        lemma_lex_irreflexive(a.drop_first());
    }
}

/// The order is transitive.
pub proof fn lemma_lex_transitive(a: Seq<char>, b: Seq<char>, c: Seq<char>)
    requires
        lex_lt(a, b),
        lex_lt(b, c),
    ensures
        lex_lt(a, c),
    decreases a.len(),
{
    if a.len() > 0 && b.len() > 0 && c.len() > 0 && a[0] == b[0] && b[0] == c[0] {
        lemma_lex_transitive(a.drop_first(), b.drop_first(), c.drop_first());
    }
}

/// Two different sequences are ordered one way or the other.
pub proof fn lemma_lex_total(a: Seq<char>, b: Seq<char>)
    requires
        a != b,
    ensures
        lex_lt(a, b) || lex_lt(b, a),
    decreases a.len(),
{
    if a.len() > 0 && b.len() > 0 && a[0] == b[0] {
        if a.drop_first() == b.drop_first() {
            assert(a =~= seq![a[0]] + a.drop_first());
            assert(b =~= seq![b[0]] + b.drop_first());
        }
        lemma_lex_total(a.drop_first(), b.drop_first());
    } else if a.len() == 0 && b.len() == 0 {
        assert(a =~= b);
    }
}

/// What entries are ordered by: directory flag, then name.
pub type EntryKey = (bool, Seq<char>);

/// The key of an entry.
pub open spec fn entry_key(e: FsEntry) -> EntryKey {
    (e.is_dir, e.name@)
}

/// Whether `x` sorts strictly before `y`: directories before files, then by
/// name ignoring ASCII case, then (when `tie_by_name`) by exact name.
pub open spec fn entry_before(x: EntryKey, y: EntryKey, tie_by_name: bool) -> bool {
    if x.0 != y.0 {
        x.0
    } else if ascii_lower_seq(x.1) != ascii_lower_seq(y.1) {
        lex_lt(ascii_lower_seq(x.1), ascii_lower_seq(y.1))
    } else {
        tie_by_name && lex_lt(x.1, y.1)
    }
}

/// Entries in order: none comes after one that follows it.
pub open spec fn entries_sorted(s: Seq<FsEntry>, tie_by_name: bool) -> bool {
    forall|i: int, j: int| 0 <= i < j < s.len() ==> !entry_before(entry_key(#[trigger] s[j]), entry_key(#[trigger] s[i]), tie_by_name)
}

/// Sorting entries is transitive.
pub proof fn lemma_entry_before_transitive(x: EntryKey, y: EntryKey, z: EntryKey, tie: bool)
    requires
        entry_before(x, y, tie),
        entry_before(y, z, tie),
    ensures
        entry_before(x, z, tie),
{
    let lx = ascii_lower_seq(x.1);
    let ly = ascii_lower_seq(y.1);
    let lz = ascii_lower_seq(z.1);
    if x.0 == y.0 && y.0 == z.0 {
        if lx != ly && ly != lz {
            lemma_lex_transitive(lx, ly, lz);
            if lx == lz {
                lemma_lex_irreflexive(lx);
                lemma_lex_transitive(lx, ly, lx);
            }
        } else if lx != ly && ly == lz {
            if lx == lz {
                lemma_lex_irreflexive(lx);
            }
        } else if lx == ly && ly != lz {
        } else {
            lemma_lex_transitive(x.1, y.1, z.1);
        }
    }
}

/// Whether `x` sorts strictly before `y`.
fn before(x: &FsEntry, y: &FsEntry, tie_by_name: bool) -> (r: bool)
    ensures
        r == entry_before(entry_key(*x), entry_key(*y), tie_by_name),
{
    if x.is_dir != y.is_dir {
        return x.is_dir;
    }
    let xn = chars_vec(x.name.as_str());
    let yn = chars_vec(y.name.as_str());
    let xl = ascii_lower_vec(&xn);
    let yl = ascii_lower_vec(&yn);
    if !chars_eq(&xl, &yl) {
        return lex_less(&xl, &yl);
    }
    tie_by_name && lex_less(&xn, &yn)
}

/// Whether `a` comes strictly before `b` by code point.
pub fn lex_less(a: &Vec<char>, b: &Vec<char>) -> (r: bool)
    ensures
        r == lex_lt(a@, b@),
{
    let mut i: usize = 0;
    assert(a@.skip(0) =~= a@);
    assert(b@.skip(0) =~= b@);
    while i < a.len() && i < b.len()
        invariant
            i <= a.len(),
            i <= b.len(),
            forall|j: int| 0 <= j < i ==> a@[j] == b@[j],
            lex_lt(a@, b@) == lex_lt(a@.skip(i as int), b@.skip(i as int)),
        decreases a.len() - i,
    {
        proof {
            assert(a@.skip(i as int)[0] == a@[i as int]);
            assert(b@.skip(i as int)[0] == b@[i as int]);
            assert(a@.skip(i as int).drop_first() =~= a@.skip(i + 1));
            assert(b@.skip(i as int).drop_first() =~= b@.skip(i + 1));
        }
        if a[i] != b[i] {
            return a[i] < b[i];
        }
        i += 1;
    }
    proof {
        assert(a@.skip(i as int).len() == a@.len() - i);
        assert(b@.skip(i as int).len() == b@.len() - i);
    }
    i == a.len() && i < b.len()
}

/// The entries in browser order: directories first, then files, each group
/// by name ignoring ASCII case and, when `tie_by_name`, then by exact name.
pub fn sort_entries(entries: Vec<FsEntry>, tie_by_name: bool) -> (r: Vec<FsEntry>)
    ensures
        r@.to_multiset() == entries@.to_multiset(),
        entries_sorted(r@, tie_by_name),
{
    let ghost original = entries@;
    let mut rest = entries;
    let mut out: Vec<FsEntry> = Vec::new();
    assert(out@.to_multiset() =~= vstd::multiset::Multiset::empty());
    while rest.len() > 0
        invariant
            out@.to_multiset().add(rest@.to_multiset()) == original.to_multiset(),
            entries_sorted(out@, tie_by_name),
        decreases rest.len(),
    {
        let ghost before_rest = rest@;
        let e = rest.remove(0);
        proof {
            assert(rest@.to_multiset() =~= before_rest.to_multiset().remove(e));
            assert(before_rest.to_multiset().count(e) > 0);
        }
        let mut p: usize = 0;
        while p < out.len() && !before(&e, &out[p], tie_by_name)
            invariant
                p <= out.len(),
                forall|k: int| 0 <= k < p ==> !entry_before(entry_key(e), entry_key(#[trigger] out@[k]), tie_by_name),
            decreases out.len() - p,
        {
            p += 1;
        }
        let ghost old_out = out@;
        out.insert(p, e);
        proof {
            assert(out@ =~= old_out.take(p as int).push(e) + old_out.skip(p as int));
            assert forall|i: int, j: int| 0 <= i < j < out@.len() implies !entry_before(entry_key(#[trigger] out@[j]), entry_key(#[trigger] out@[i]), tie_by_name) by {
                if i < p && j == p {
                    assert(out@[i] == old_out[i]);
                } else if i < p && j > p {
                    assert(out@[i] == old_out[i]);
                    assert(out@[j] == old_out[j - 1]);
                } else if i == p && j > p {
                    assert(out@[j] == old_out[j - 1]);
                    assert(entry_before(entry_key(e), entry_key(old_out[p as int]), tie_by_name));
                    if entry_before(entry_key(old_out[j - 1]), entry_key(e), tie_by_name) {
                        lemma_entry_before_transitive(entry_key(old_out[j - 1]), entry_key(e), entry_key(old_out[p as int]), tie_by_name);
                        if j - 1 > p {
                            assert(!entry_before(entry_key(old_out[j - 1]), entry_key(old_out[p as int]), tie_by_name));
                        } else {
                            let k = entry_key(old_out[p as int]);
                            if k.0 == k.0 {
                                lemma_lex_irreflexive(ascii_lower_seq(k.1));
                                lemma_lex_irreflexive(k.1);
                            }
                        }
                    }
                } else if j < p {
                    assert(out@[i] == old_out[i]);
                    assert(out@[j] == old_out[j]);
                } else {
                    assert(out@[i] == old_out[i - 1]);
                    assert(out@[j] == old_out[j - 1]);
                }
            }
            assert(out@.remove(p as int) =~= old_out);
            assert(out@[p as int] == e);
            assert(old_out.to_multiset() =~= out@.to_multiset().remove(e));
            assert(out@.to_multiset().count(e) > 0);
            assert(out@.to_multiset() =~= old_out.to_multiset().insert(e));
        }
    }
    proof {
        assert(rest@.to_multiset().len() == 0);
        assert(rest@.to_multiset() =~= vstd::multiset::Multiset::empty());
        assert(out@.to_multiset().add(rest@.to_multiset()) =~= out@.to_multiset());
    }
    out
}

} // verus!
