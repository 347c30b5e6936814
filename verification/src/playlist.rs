//! The playlist store's own rules: how a find query becomes search tokens and
//! a full-text query, how each view orders rows, where staged rows are
//! placed between their neighbours, and which playlist a save writes to.

use std::path::{Path, PathBuf};
use vstd::prelude::*;

use crate::diagnostic::{is_white_space, white_space};
use crate::discovery::{buf_parts, path_parts, path_view};
use crate::models::PlaylistSort;
use crate::text::{ascii_lower_seq, ascii_lower_vec, chars_vec, string_from_chars};

verus! {

/// Gap between neighbouring position keys, leaving room for local inserts.
pub const POS_STEP: i64 = 10_000;

/// Playlist CRUD, ordering, search and track metadata over one database file.
pub struct PlaylistStore {
    db_path: PathBuf,
}

impl PlaylistStore {
    /// A store over the database at `db_path`.
    pub fn new(db_path: PathBuf) -> (s: PlaylistStore)
        ensures
            s.spec_db_path() == db_path,
    {
        PlaylistStore { db_path }
    }

    /// The database file.
    pub closed spec fn spec_db_path(&self) -> PathBuf {
        self.db_path
    }

    /// The database file.
    pub fn db_path(&self) -> (r: &Path)
        ensures
            path_parts(r) == buf_parts(self.spec_db_path()),
    {
        path_view(&self.db_path)
    }
}

/// Scanner state for splitting on white space: finished words, current word.
pub type WordScan = (Seq<Seq<char>>, Seq<char>);

/// One character of the split.
pub open spec fn word_step(st: WordScan, c: char) -> WordScan {
    if is_white_space(c) {
        if st.1.len() > 0 { (st.0.push(st.1), Seq::empty()) } else { (st.0, Seq::empty()) }
    } else {
        (st.0, st.1.push(c))
    }
}

/// The split state after all of `s`.
pub open spec fn word_scan(s: Seq<char>) -> WordScan
    decreases s.len(),
{
    if s.len() == 0 {
        (Seq::empty(), Seq::empty())
    } else {
        word_step(word_scan(s.drop_last()), s.last())
    }
}

/// The maximal runs of non-white-space characters of `s`, in order
/// (`str::split_whitespace`).
pub open spec fn words(s: Seq<char>) -> Seq<Seq<char>> {
    let st = word_scan(s);
    if st.1.len() > 0 { st.0.push(st.1) } else { st.0 }
}

/// The search tokens of a find query: its words, ASCII-lowercased.
pub open spec fn spec_search_tokens(query: Seq<char>) -> Seq<Seq<char>> {
    words(query).map_values(|w: Seq<char>| ascii_lower_seq(w))
}

proof fn lemma_word_scan_current_nonblank(s: Seq<char>)
    ensures
        forall|k: int| 0 <= k < word_scan(s).0.len() ==> #[trigger] word_scan(s).0[k].len() > 0,
    decreases s.len(),
{
    if s.len() > 0 {
        let prev = word_scan(s.drop_last());
        lemma_word_scan_current_nonblank(s.drop_last());
        let c = s.last();
        if is_white_space(c) && prev.1.len() > 0 {
            assert forall|k: int| 0 <= k < prev.0.push(prev.1).len() implies #[trigger] prev.0.push(prev.1)[k].len() > 0 by {
                if k < prev.0.len() {
                    assert(prev.0.push(prev.1)[k] == prev.0[k]);
                }
            }
        }
    }
}

/// Every word is non-empty.
pub proof fn lemma_words_nonempty(s: Seq<char>)
    ensures
        forall|k: int| 0 <= k < words(s).len() ==> #[trigger] words(s)[k].len() > 0,
{
    lemma_word_scan_current_nonblank(s);
}

/// The white-space separated words of `chars`, in order.
pub fn split_words(chars: &Vec<char>) -> (r: Vec<Vec<char>>)
    ensures
        r@.len() == words(chars@).len(),
        forall|k: int| 0 <= k < r@.len() ==> #[trigger] r@[k]@ == words(chars@)[k],
{
    let mut done: Vec<Vec<char>> = Vec::new();
    let mut current: Vec<char> = Vec::new();
    let ghost mut finished: Seq<Seq<char>> = Seq::empty();
    let mut i: usize = 0;
    while i < chars.len()
        invariant
            i <= chars.len(),
            word_scan(chars@.take(i as int)) == (finished, current@),
            done@.len() == finished.len(),
            forall|k: int| 0 <= k < done@.len() ==> #[trigger] done@[k]@ == finished[k],
        decreases chars.len() - i,
    {
        let c = chars[i];
        proof {
            assert(chars@.take(i + 1).drop_last() =~= chars@.take(i as int));
            assert(chars@.take(i + 1).last() == c);
        }
        if white_space(c) {
            if current.len() > 0 {
                let word = current;
                proof {
                    finished = finished.push(word@);
                }
                done.push(word);
                current = Vec::new();
            }
        } else {
            current.push(c);
        }
        i += 1;
    }
    proof {
        assert(chars@.take(chars.len() as int) =~= chars@);
    }
    if current.len() > 0 {
        proof {
            finished = finished.push(current@);
        }
        done.push(current);
    }
    proof {
        assert(finished == words(chars@));
    }
    done
}

/// The search tokens of a find query: its white-space separated words,
/// ASCII-lowercased. No token is empty.
pub fn search_tokens(query: &str) -> (r: Vec<String>)
    ensures
        r@.len() == spec_search_tokens(query@).len(),
        forall|k: int| 0 <= k < r@.len() ==> #[trigger] r@[k]@ == spec_search_tokens(query@)[k],
        forall|k: int| 0 <= k < r@.len() ==> #[trigger] r@[k]@.len() > 0,
{
    let chars = chars_vec(query);
    let split = split_words(&chars);
    proof {
        lemma_words_nonempty(query@);
    }
    let mut out: Vec<String> = Vec::new();
    let mut k: usize = 0;
    while k < split.len()
        invariant
            k <= split.len(),
            chars@ == query@,
            split@.len() == words(query@).len(),
            forall|j: int| 0 <= j < split@.len() ==> #[trigger] split@[j]@ == words(query@)[j],
            forall|j: int| 0 <= j < words(query@).len() ==> #[trigger] words(query@)[j].len() > 0,
            out@.len() == k,
            forall|j: int| 0 <= j < k ==> #[trigger] out@[j]@ == spec_search_tokens(query@)[j],
            forall|j: int| 0 <= j < k ==> #[trigger] out@[j]@.len() > 0,
        decreases split.len() - k,
    {
        let lowered = ascii_lower_vec(&split[k]);
        proof {
            assert(split@[k as int]@ == words(query@)[k as int]);
            assert(words(query@)[k as int].len() > 0);
        }
        out.push(string_from_chars(&lowered));
        k += 1;
    }
    out
}

/// A token quoted for the full-text engine: `"` doubled.
pub open spec fn escape_quotes(t: Seq<char>) -> Seq<char>
    decreases t.len(),
{
    if t.len() == 0 {
        Seq::empty()
    } else {
        escape_quotes(t.drop_last()) + if t.last() == '"' { seq!['"', '"'] } else { seq![t.last()] }
    }
}

/// One token as a quoted prefix term: `"token"*`.
pub open spec fn fts_term(t: Seq<char>) -> Seq<char> {
    seq!['"'] + escape_quotes(t) + seq!['"', '*']
}

/// The full-text query matching rows that hold every token as a prefix:
/// the terms joined by ` AND `.
pub open spec fn spec_fts_query(tokens: Seq<Seq<char>>) -> Seq<char>
    decreases tokens.len(),
{
    if tokens.len() == 0 {
        Seq::empty()
    } else if tokens.len() == 1 {
        fts_term(tokens[0])
    } else {
        spec_fts_query(tokens.drop_last()) + " AND "@ + fts_term(tokens.last())
    }
}

/// The query of one token is that token's quoted prefix term, and the query
/// of two runs of tokens is the query of the first, ` AND `, and the query
/// of the second: every pair of neighbouring terms is joined by ` AND `, so
/// a row matches only when it holds every token.
pub proof fn lemma_fts_query_joins_every_term_with_and(a: Seq<Seq<char>>, b: Seq<Seq<char>>)
    requires
        a.len() >= 1,
        b.len() >= 1,
    ensures
        spec_fts_query(seq![a[0]]) == seq!['"'] + escape_quotes(a[0]) + seq!['"', '*'],
        spec_fts_query(a + b) == spec_fts_query(a) + " AND "@ + spec_fts_query(b),
    decreases b.len(),
{
    if b.len() == 1 {
        assert((a + b).drop_last() =~= a);
        assert((a + b).last() == b[0]);
        assert(spec_fts_query(b) == fts_term(b[0]));
    } else {
        let b1 = b.drop_last();
        lemma_fts_query_joins_every_term_with_and(a, b1);
        assert((a + b).drop_last() =~= a + b1);
        assert((a + b).last() == b.last());
        let x = spec_fts_query(a);
        let y = spec_fts_query(b1);
        let and = " AND "@;
        let t = fts_term(b.last());
        assert(spec_fts_query(a + b) == spec_fts_query(a + b1) + and + t);
        assert(spec_fts_query(b) == y + and + t);
        assert(x + and + y + and + t =~= x + and + (y + and + t));
    }
}

fn push_fts_term(out: &mut Vec<char>, token: &String)
    ensures
        final(out)@ == old(out)@ + fts_term(token@),
{
    let t = chars_vec(token.as_str());
    let ghost start = out@;
    out.push('"');
    let mut i: usize = 0;
    while i < t.len()
        invariant
            i <= t.len(),
            out@ == start + seq!['"'] + escape_quotes(t@.take(i as int)),
        decreases t.len() - i,
    {
        proof {
            assert(t@.take(i + 1).drop_last() =~= t@.take(i as int));
        }
        if t[i] == '"' {
            out.push('"');
            out.push('"');
        } else {
            out.push(t[i]);
        }
        i += 1;
        assert(out@ =~= start + seq!['"'] + escape_quotes(t@.take(i as int)));
    }
    assert(t@.take(t.len() as int) =~= t@);
    out.push('"');
    out.push('*');
    assert(out@ =~= start + fts_term(token@));
}

/// The full-text query for `tokens`: each as `"token"*` with quotes doubled,
/// joined by ` AND `.
pub fn build_fts_query(tokens: &Vec<String>) -> (r: String)
    ensures
        r@ == spec_fts_query(tokens@.map_values(|t: String| t@)),
{
    let ghost views = tokens@.map_values(|t: String| t@);
    let mut out: Vec<char> = Vec::new();
    let mut i: usize = 0;
    while i < tokens.len()
        invariant
            i <= tokens.len(),
            views == tokens@.map_values(|t: String| t@),
            out@ == spec_fts_query(views.take(i as int)),
        decreases tokens.len() - i,
    {
        proof {
            assert(views.take(i + 1).drop_last() =~= views.take(i as int));
            assert(views.take(i + 1).last() == tokens@[i as int]@);
        }
        let ghost before = out@;
        if i > 0 {
            out.push(' ');
            out.push('A');
            out.push('N');
            out.push('D');
            out.push(' ');
            proof {
                reveal_strlit(" AND ");
                assert(out@ =~= before + " AND "@);
            }
        }
        push_fts_term(&mut out, &tokens[i]);
        proof {
            let t = views.take(i + 1);
            assert(t.last() == tokens@[i as int]@);
            if i == 0 {
                assert(t.len() == 1);
                assert(t[0] == tokens@[0]@);
                assert(out@ =~= fts_term(t[0]));
            } else {
                assert(spec_fts_query(t) == spec_fts_query(t.drop_last()) + " AND "@ + fts_term(t.last()));
                assert(out@ =~= spec_fts_query(t));
            }
        }
        i += 1;
    }
    assert(views.take(tokens.len() as int) =~= views);
    string_from_chars(&out)
}

/// SQL `ORDER BY` terms of each playlist view. Every view ends on the
/// playlist order, so rows that tie keep their playlist order.
pub fn playlist_order_by(sort: PlaylistSort) -> (r: &'static str)
    ensures
        r@ == match sort {
            PlaylistSort::Playlist => "playlist_items.pos_key, playlist_items.id"@,
            PlaylistSort::Track => "LOWER(COALESCE(NULLIF(TRIM(track_meta.title), ''), tracks.path)), playlist_items.pos_key, playlist_items.id"@,
            PlaylistSort::Artist => "CASE WHEN NULLIF(TRIM(track_meta.artist), '') IS NULL THEN 1 ELSE 0 END, LOWER(COALESCE(track_meta.artist, '')), LOWER(COALESCE(NULLIF(TRIM(track_meta.title), ''), tracks.path)), playlist_items.pos_key, playlist_items.id"@,
            PlaylistSort::Album => "CASE WHEN NULLIF(TRIM(track_meta.album), '') IS NULL THEN 1 ELSE 0 END, LOWER(COALESCE(track_meta.album, '')), LOWER(COALESCE(NULLIF(TRIM(track_meta.title), ''), tracks.path)), playlist_items.pos_key, playlist_items.id"@,
        },
{
    match sort {
        PlaylistSort::Playlist => "playlist_items.pos_key, playlist_items.id",
        PlaylistSort::Track => "LOWER(COALESCE(NULLIF(TRIM(track_meta.title), ''), tracks.path)), playlist_items.pos_key, playlist_items.id",
        PlaylistSort::Artist => "CASE WHEN NULLIF(TRIM(track_meta.artist), '') IS NULL THEN 1 ELSE 0 END, LOWER(COALESCE(track_meta.artist, '')), LOWER(COALESCE(NULLIF(TRIM(track_meta.title), ''), tracks.path)), playlist_items.pos_key, playlist_items.id",
        PlaylistSort::Album => "CASE WHEN NULLIF(TRIM(track_meta.album), '') IS NULL THEN 1 ELSE 0 END, LOWER(COALESCE(track_meta.album, '')), LOWER(COALESCE(NULLIF(TRIM(track_meta.title), ''), tracks.path)), playlist_items.pos_key, playlist_items.id",
    }
}

/// Where saving the staged playlist writes.
#[derive(Debug, Clone, Copy, PartialEq, Eq, Structural)]
pub enum SaveTarget {
    /// The target already carries the name: overwrite its rows.
    Existing(i64),
    /// Rename the target, then overwrite its rows.
    Renamed(i64),
    /// Create a new playlist under the name.
    Created,
    /// Another playlist already has the name.
    NameTaken,
}

/// Where a save of the staged playlist writes, given the playlist it replaces
/// (if any) and the playlist that already has the name (case-insensitively).
pub open spec fn spec_save_target(target: Option<i64>, holder: Option<i64>) -> SaveTarget {
    match (target, holder) {
        (Some(id), Some(found)) => if id == found { SaveTarget::Existing(id) } else { SaveTarget::NameTaken },
        (Some(id), None) => SaveTarget::Renamed(id),
        (None, Some(_)) => SaveTarget::NameTaken,
        (None, None) => SaveTarget::Created,
    }
}

/// Where a save of the staged playlist writes.
pub fn save_target(target: Option<i64>, holder: Option<i64>) -> (r: SaveTarget)
    ensures
        r == spec_save_target(target, holder),
{
    match (target, holder) {
        (Some(id), Some(found)) => if id == found {
            SaveTarget::Existing(id)
        } else {
            SaveTarget::NameTaken
        },
        (Some(id), None) => SaveTarget::Renamed(id),
        (None, Some(_)) => SaveTarget::NameTaken,
        (None, None) => SaveTarget::Created,
    }
}

/// A save never takes a name that another playlist holds, and writes only to
/// the playlist it was asked to replace or to a new one.
pub proof fn lemma_save_never_steals_a_name(target: Option<i64>, holder: Option<i64>)
    ensures
        spec_save_target(target, holder) matches SaveTarget::Existing(id) ==> target == Some(id) && holder == Some(id),
        spec_save_target(target, holder) matches SaveTarget::Renamed(id) ==> target == Some(id) && holder is None,
        spec_save_target(target, holder) is Created ==> target is None && holder is None,
        (holder is Some && holder != target) ==> spec_save_target(target, holder) is NameTaken,
{
}

/// Position keys for rows appended after the last key `start` (zero for an
/// empty draft): one step apart.
pub open spec fn spec_append_position(start: int, k: int) -> int {
    start + POS_STEP * (k + 1)
}

/// How many rows can be appended after the last key `start` while the key
/// after the last of them still fits in `i64`; none when even the first key
/// does not fit.
pub fn append_room(start: i64) -> (r: Option<u64>)
    ensures
        r is None <==> start + POS_STEP > i64::MAX,
        r matches Some(c) ==> start + POS_STEP * (c + 1) <= i64::MAX && start + POS_STEP * (c + 2) > i64::MAX,
{
    if start > i64::MAX - POS_STEP {
        return None;
    }
    let room: i128 = i64::MAX as i128 - start as i128;
    let q: i128 = room / 10_000i128;
    assert(1 <= q && q <= 2 * (i64::MAX as int) / 10_000 + 1 && 10_000 * q <= room && room < 10_000 * (q + 1))
        by (nonlinear_arith)
        requires
            q == room / 10_000i128,
            10_000 <= room <= 2 * (i64::MAX as int) + 1,
    ;
    let c: u64 = (q - 1) as u64;
    Some(c)
}

/// Position keys for `count` rows appended after the last key `start`.
pub fn append_positions(start: i64, count: usize) -> (r: Vec<i64>)
    requires
        start + POS_STEP * (count + 1) <= i64::MAX,
    ensures
        r@.len() == count,
        forall|k: int| 0 <= k < count ==> #[trigger] r@[k] == spec_append_position(start as int, k),
{
    let mut out: Vec<i64> = Vec::new();
    let mut pos: i64 = start + POS_STEP;
    let mut k: usize = 0;
    while k < count
        invariant
            k <= count,
            start + POS_STEP * (count + 1) <= i64::MAX,
            out@.len() == k,
            pos == spec_append_position(start as int, k as int),
            forall|j: int| 0 <= j < k ==> #[trigger] out@[j] == spec_append_position(start as int, j),
        decreases count - k,
    {
        out.push(pos);
        k += 1;
        assert(POS_STEP * (k + 1) <= POS_STEP * (count + 1)) by (nonlinear_arith)
            requires k <= count;
        pos = pos + POS_STEP;
    }
    out
}

/// Position keys `step * (k + 1)` saturating at `i64::MAX`, used when a draft
/// is renumbered to make room.
pub open spec fn spec_renumbered(step: int, k: int) -> int {
    if step * (k + 1) > i64::MAX { i64::MAX as int } else { step * (k + 1) }
}

/// Position keys for a renumbered draft of `count` rows.
pub fn renumbered_positions(step: i64, count: usize) -> (r: Vec<i64>)
    requires
        step > 0,
    ensures
        r@.len() == count,
        forall|k: int| 0 <= k < count ==> #[trigger] r@[k] == spec_renumbered(step as int, k),
{
    let mut out: Vec<i64> = Vec::new();
    let mut k: usize = 0;
    while k < count
        invariant
            k <= count,
            step > 0,
            out@.len() == k,
            forall|j: int| 0 <= j < k ==> #[trigger] out@[j] == spec_renumbered(step as int, j),
        decreases count - k,
    {
        let factor: i128 = (k as i128) + 1;
        assert(step * factor <= 9_223_372_036_854_775_807i128 * 18_446_744_073_709_551_616i128) by (nonlinear_arith)
            requires 0 < step <= 9_223_372_036_854_775_807i128, 0 < factor <= 18_446_744_073_709_551_616i128;
        let product: i128 = (step as i128) * factor;
        let key: i64 = if product > (i64::MAX as i128) { i64::MAX } else { product as i64 };
        out.push(key);
        k += 1;
    }
    out
}

/// Whether rows inserted between the keys `after` and `before` (none when
/// inserting at the end) leave no room, so the draft is renumbered first.
pub open spec fn spec_needs_renumber(after: int, before: Option<i64>, count: nat) -> bool {
    let upper: int = match before {
        Some(b) => b as int,
        None => if after + POS_STEP > i64::MAX { i64::MAX as int } else { after + POS_STEP },
    };
    let gap: int = if upper - after < i64::MIN { i64::MIN as int } else if upper - after > i64::MAX { i64::MAX as int } else { upper - after };
    gap <= count
}

/// Whether inserting `count` rows between `after` and `before` needs a
/// renumbered draft first.
pub fn needs_renumber(after: i64, before: Option<i64>, count: usize) -> (r: bool)
    ensures
        r == spec_needs_renumber(after as int, before, count as nat),
{
    let upper: i128 = match before {
        Some(b) => b as i128,
        None => {
            let raised: i128 = (after as i128) + (POS_STEP as i128);
            if raised > (i64::MAX as i128) { i64::MAX as i128 } else { raised }
        },
    };
    let diff: i128 = upper - (after as i128);
    let gap: i128 = if diff < (i64::MIN as i128) {
        i64::MIN as i128
    } else if diff > (i64::MAX as i128) {
        i64::MAX as i128
    } else {
        diff
    };
    gap <= (count as i128)
}

/// The key above an insertion point: the next row's, or one step past the
/// row before when inserting at the end.
pub fn upper_bound_key(lower: i64, next: Option<i64>) -> (r: i64)
    ensures
        r == match next {
            Some(n) => n as int,
            None => if lower + POS_STEP > i64::MAX { i64::MAX as int } else { lower + POS_STEP },
        },
{
    match next {
        Some(n) => n,
        None => if lower > i64::MAX - POS_STEP { i64::MAX } else { lower + POS_STEP },
    }
}

/// Keys for `count` rows spread evenly between `lower` and `upper`, at least
/// one apart.
pub open spec fn spec_spread_step(lower: int, upper: int, count: nat) -> int {
    let s = (upper - lower) / ((count + 1) as int);
    if s < 1 { 1 } else { s }
}

/// Keys for `count` rows inserted between `lower` and `upper`:
/// `lower + step * (k + 1)` with the step spreading them evenly.
pub fn spread_positions(lower: i64, upper: i64, count: usize) -> (r: Vec<i64>)
    requires
        lower <= upper,
        lower + count + 1 <= i64::MAX,
    ensures
        r@.len() == count,
        forall|k: int| 0 <= k < count ==> #[trigger] r@[k] == lower + spec_spread_step(lower as int, upper as int, count as nat) * (k + 1),
        forall|j: int, k: int| 0 <= j < k < count ==> r@[j] < r@[k],
        forall|k: int| 0 <= k < count ==> lower < #[trigger] r@[k],
        upper - lower > count ==> forall|k: int| 0 <= k < count ==> #[trigger] r@[k] < upper,
{
    let width: i128 = (upper as i128) - (lower as i128);
    let parts: i128 = (count as i128) + 1;
    let quotient: i128 = width / parts;
    let step: i128 = if quotient < 1 { 1 } else { quotient };
    proof {
        assert(step == spec_spread_step(lower as int, upper as int, count as nat));
        if quotient >= 1 {
            assert(step * parts <= width) by (nonlinear_arith)
                requires step == width / parts, parts > 0, width >= 0;
        }
    }
    let mut out: Vec<i64> = Vec::new();
    let mut k: usize = 0;
    while k < count
        invariant
            k <= count,
            lower <= upper,
            lower + count + 1 <= i64::MAX,
            parts == count + 1,
            step >= 1,
            step == spec_spread_step(lower as int, upper as int, count as nat),
            step > 1 ==> step * parts <= upper - lower,
            out@.len() == k,
            forall|j: int| 0 <= j < k ==> #[trigger] out@[j] == lower + step * (j + 1),
        decreases count - k,
    {
        let factor: i128 = (k as i128) + 1;
        assert(step * factor <= step * parts) by (nonlinear_arith)
            requires step >= 1, 0 < factor <= parts;
        assert(lower + step * factor <= i64::MAX) by (nonlinear_arith)
            requires
                step >= 1,
                0 < factor <= parts,
                parts == count + 1,
                step > 1 ==> step * parts <= upper - lower,
                step == 1 ==> step * factor == factor,
                lower + count + 1 <= i64::MAX,
                upper <= i64::MAX,
                step * factor <= step * parts;
        let key: i128 = (lower as i128) + step * factor;
        out.push(key as i64);
        k += 1;
    }
    assert forall|j: int, k: int| 0 <= j < k < count implies out@[j] < out@[k] by {
        assert(step * (j + 1) < step * (k + 1)) by (nonlinear_arith)
            requires step >= 1, j < k;
    }
    assert forall|k: int| 0 <= k < count implies lower < #[trigger] out@[k] by {
        assert(step * (k + 1) >= 1) by (nonlinear_arith)
            requires step >= 1, k >= 0;
    }
    proof {
        if upper - lower > count {
            assert forall|k: int| 0 <= k < count implies #[trigger] out@[k] < upper by {
                lemma_spread_below(lower as int, upper as int, count as nat, k);
            }
        }
    }
    out
}

/// With more room than rows, the `k`-th spread key stays below `upper`.
proof fn lemma_spread_below(lower: int, upper: int, count: nat, k: int)
    requires
        upper - lower > count,
        0 <= k < count,
    ensures
        lower + spec_spread_step(lower, upper, count) * (k + 1) < upper,
{
    let w = upper - lower;
    let parts = (count + 1) as int;
    let q = w / parts;
    assert(q >= 1 && q * parts <= w) by (nonlinear_arith)
        requires w >= parts, parts > 0, q == w / parts;
    assert(q * (k + 1) <= q * count) by (nonlinear_arith)
        requires q >= 1, k + 1 <= count;
    assert(q * count < q * parts) by (nonlinear_arith)
        requires q >= 1, parts == count + 1;
}

/// The key of the `k`-th of `count` rows spread between `lower` and
/// `upper`.
pub open spec fn spread_key(lower: int, upper: int, count: nat, k: int) -> int {
    lower + spec_spread_step(lower, upper, count) * (k + 1)
}

/// Rows inserted where the draft has room land strictly between their
/// neighbours, in the order given: when no renumbering is needed, the keys
/// spread between the row before (`after`) and the row after (`before`)
/// increase and stay inside that gap.
pub proof fn lemma_insert_keeps_order(after: int, before: i64, count: nat)
    requires
        after <= before,
        !spec_needs_renumber(after, Some(before), count),
    ensures
        forall|j: int, k: int| 0 <= j < k < count ==>
            #[trigger] spread_key(after, before as int, count, j) < #[trigger] spread_key(after, before as int, count, k),
        forall|k: int| 0 <= k < count ==> after < #[trigger] spread_key(after, before as int, count, k) < before,
{
    let step = spec_spread_step(after, before as int, count);
    assert forall|j: int, k: int| 0 <= j < k < count implies #[trigger] spread_key(after, before as int, count, j) < #[trigger] spread_key(after, before as int, count, k) by {
        assert(step * (j + 1) < step * (k + 1)) by (nonlinear_arith)
            requires step >= 1, j < k;
    }
    assert forall|k: int| 0 <= k < count implies after < #[trigger] spread_key(after, before as int, count, k) < before by {
        assert(step * (k + 1) >= 1) by (nonlinear_arith)
            requires step >= 1, k >= 0;
        lemma_spread_below(after, before as int, count, k);
    }
}

/// The neighbour a staged row swaps with when moved, if the move is possible
/// at all (the first row cannot move up).
pub fn reorder_neighbor(index: usize, up: bool) -> (r: Option<usize>)
    ensures
        up ==> r == (if index == 0 { None } else { Some((index - 1) as usize) }),
        !up ==> r == (if index < usize::MAX { Some((index + 1) as usize) } else { None::<usize> }),
{
    if up {
        if index == 0 {
            None
        } else {
            Some(index - 1)
        }
    } else if index < usize::MAX {
        Some(index + 1)
    } else {
        None
    }
}

/// A row offset in `0..total` taken from a random `seed`; zero when there
/// are no rows.
pub fn offset_within(seed: u64, total: usize) -> (r: usize)
    ensures
        total == 0 ==> r == 0,
        total > 0 ==> r == (seed as nat) % (total as nat) && r < total,
{
    if total == 0 {
        0
    } else {
        ((seed as u128) % (total as u128)) as usize
    }
}

} // verus!
