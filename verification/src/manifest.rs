//! The pinned FFmpeg manifest: a line-oriented `key = value` text whose
//! values are quoted strings (`version = "7.1"`), bracketed lists of quoted
//! names (`decoders = ["flac", "mp3"]`) and a braced table of library major
//! versions (`library_majors = {avcodec = 61, avutil = 59}`). The first line
//! of the right shape for a key wins.

use vstd::prelude::*;

use crate::bench::{lines, split_lines};
use crate::diagnostic::{trim_chars, trim_seq};
use crate::helper_cli::{parse_u32, spec_parse_u32};
use crate::listing::{lemma_lex_irreflexive, lemma_lex_transitive, lex_less, lex_lt};
use crate::text::{chars_vec, string_from_chars};

verus! {

broadcast use {vstd::multiset::group_multiset_axioms, vstd::seq_lib::group_to_multiset_ensures};

/// What lies between `open` at the start of `s` and `close` at its end.
pub open spec fn strip_around(s: Seq<char>, open: Seq<char>, close: char) -> Option<Seq<char>> {
    if open.len() <= s.len() && s.take(open.len() as int) == open {
        let rest = s.skip(open.len() as int);
        if rest.len() > 0 && rest.last() == close {
            Some(rest.drop_last())
        } else {
            None
        }
    } else {
        None
    }
}

/// The inside of the first of `ls` that starts with `open` and ends with
/// `close`.
pub open spec fn first_between(ls: Seq<Seq<char>>, open: Seq<char>, close: char) -> Option<Seq<char>>
    decreases ls.len(),
{
    if ls.len() == 0 {
        None
    } else {
        match strip_around(ls[0], open, close) {
            Some(v) => Some(v),
            None => first_between(ls.drop_first(), open, close),
        }
    }
}

/// The inside of the first manifest line of the given shape.
pub open spec fn manifest_line(manifest: Seq<char>, open: Seq<char>, close: char) -> Option<Seq<char>> {
    first_between(lines(manifest), open, close)
}

/// The pieces of `s` between commas, scanned so far: (finished pieces,
/// current piece).
pub open spec fn piece_scan(s: Seq<char>) -> (Seq<Seq<char>>, Seq<char>)
    decreases s.len(),
{
    if s.len() == 0 {
        (Seq::empty(), Seq::empty())
    } else {
        let st = piece_scan(s.drop_last());
        if s.last() == ',' {
            (st.0.push(st.1), Seq::empty())
        } else {
            (st.0, st.1.push(s.last()))
        }
    }
}

/// The pieces of `s` between commas, empty ones included (`str::split`).
pub open spec fn comma_pieces(s: Seq<char>) -> Seq<Seq<char>> {
    let st = piece_scan(s);
    st.0.push(st.1)
}

/// `s` without leading double quotes.
pub open spec fn trim_start_quotes(s: Seq<char>) -> Seq<char>
    decreases s.len(),
{
    if s.len() > 0 && s[0] == '"' {
        trim_start_quotes(s.drop_first())
    } else {
        s
    }
}

/// `s` without trailing double quotes.
pub open spec fn trim_end_quotes(s: Seq<char>) -> Seq<char>
    decreases s.len(),
{
    if s.len() > 0 && s.last() == '"' {
        trim_end_quotes(s.drop_last())
    } else {
        s
    }
}

/// A list entry as written, without surrounding white space and quotes.
pub open spec fn list_item(piece: Seq<char>) -> Seq<char> {
    trim_end_quotes(trim_start_quotes(trim_seq(piece)))
}

/// Whether a list entry names something.
pub open spec fn nonblank(s: Seq<char>) -> bool {
    s.len() > 0
}

/// The names of a list's inside, in written order, blank ones dropped.
pub open spec fn list_items(inside: Seq<char>) -> Seq<Seq<char>> {
    comma_pieces(inside).map_values(|p: Seq<char>| list_item(p)).filter(|s: Seq<char>| nonblank(s))
}

/// Names in order (`String`'s order): none comes before an earlier one.
pub open spec fn names_sorted(s: Seq<Seq<char>>) -> bool {
    forall|i: int, j: int| 0 <= i < j < s.len() ==> !lex_lt(#[trigger] s[j], #[trigger] s[i])
}

/// The position of the first `=` of `s`.
pub open spec fn first_equals(s: Seq<char>) -> Option<int>
    decreases s.len(),
{
    if s.len() == 0 {
        None
    } else if s[0] == '=' {
        Some(0)
    } else {
        match first_equals(s.drop_first()) {
            Some(k) => Some(k + 1),
            None => None,
        }
    }
}

/// One `name = major` entry of the library table.
pub open spec fn major_entry(e: Seq<char>) -> Option<(Seq<char>, u32)> {
    match first_equals(e) {
        None => None,
        Some(k) => match spec_parse_u32(trim_seq(e.skip(k + 1))) {
            Some(v) => Some((trim_seq(e.take(k)), v)),
            None => None,
        },
    }
}

/// All entries of the library table, or none when one is malformed.
pub open spec fn major_entries(es: Seq<Seq<char>>) -> Option<Seq<(Seq<char>, u32)>>
    decreases es.len(),
{
    if es.len() == 0 {
        Some(Seq::empty())
    } else {
        match (major_entries(es.drop_last()), major_entry(es.last())) {
            (Some(done), Some(e)) => Some(done.push(e)),
            _ => None,
        }
    }
}

/// The quoted value of `name`.
pub open spec fn spec_manifest_value(manifest: Seq<char>, name: Seq<char>) -> Option<Seq<char>> {
    manifest_line(manifest, name + " = \""@, '"')
}

/// The inside of the list `name`.
pub open spec fn spec_manifest_list(manifest: Seq<char>, name: Seq<char>) -> Option<Seq<char>> {
    manifest_line(manifest, name + " = ["@, ']')
}

/// The library table's entries in written order.
pub open spec fn spec_library_majors(manifest: Seq<char>) -> Option<Seq<(Seq<char>, u32)>> {
    match manifest_line(manifest, "library_majors = {"@, '}') {
        Some(inside) => major_entries(comma_pieces(inside)),
        None => None,
    }
}

fn starts_and_ends(s: &Vec<char>, open: &Vec<char>, close: char) -> (r: Option<Vec<char>>)
    ensures
        match strip_around(s@, open@, close) {
            Some(x) => r matches Some(v) && v@ == x,
            None => r is None,
        },
{
    if open.len() > s.len() {
        return None;
    }
    let mut i: usize = 0;
    while i < open.len()
        invariant
            i <= open.len(),
            open.len() <= s.len(),
            forall|k: int| 0 <= k < i ==> s@[k] == open@[k],
        decreases open.len() - i,
    {
        if s[i] != open[i] {
            assert(s@.take(open.len() as int)[i as int] != open@[i as int]);
            return None;
        }
        i += 1;
    }
    assert(s@.take(open.len() as int) =~= open@);
    if s.len() == open.len() || s[s.len() - 1] != close {
        return None;
    }
    let mut inside: Vec<char> = Vec::new();
    let mut k: usize = open.len();
    while k < s.len() - 1
        invariant
            open.len() <= k <= s.len() - 1,
            inside@ == s@.subrange(open.len() as int, k as int),
        decreases s.len() - 1 - k,
    {
        inside.push(s[k]);
        k += 1;
        assert(inside@ =~= s@.subrange(open.len() as int, k as int));
    }
    assert(inside@ =~= s@.skip(open.len() as int).drop_last());
    Some(inside)
}

fn find_line(manifest: &str, open: &Vec<char>, close: char) -> (r: Option<Vec<char>>)
    ensures
        match manifest_line(manifest@, open@, close) {
            Some(x) => r matches Some(v) && v@ == x,
            None => r is None,
        },
{
    let text = chars_vec(manifest);
    let ls = split_lines(&text);
    let ghost all = lines(manifest@);
    let mut i: usize = 0;
    assert(all.skip(0) =~= all);
    while i < ls.len()
        invariant
            i <= ls.len(),
            all == lines(manifest@),
            ls@.len() == all.len(),
            forall|k: int| 0 <= k < ls@.len() ==> #[trigger] ls@[k]@ == all[k],
            first_between(all, open@, close) == first_between(all.skip(i as int), open@, close),
        decreases ls.len() - i,
    {
        assert(all.skip(i as int)[0] == all[i as int]);
        assert(all.skip(i as int).drop_first() =~= all.skip(i + 1));
        assert(ls@[i as int]@ == all[i as int]);
        match starts_and_ends(&ls[i], open, close) {
            Some(v) => {
                assert(first_between(all.skip(i as int), open@, close) == Some(v@));
                return Some(v);
            },
            None => {},
        }
        i += 1;
    }
    None
}

/// The pieces of `v` between commas.
pub fn split_commas(v: &Vec<char>) -> (r: Vec<Vec<char>>)
    ensures
        r@.len() == comma_pieces(v@).len(),
        forall|k: int| 0 <= k < r@.len() ==> #[trigger] r@[k]@ == comma_pieces(v@)[k],
{
    let mut done: Vec<Vec<char>> = Vec::new();
    let mut current: Vec<char> = Vec::new();
    let ghost mut finished: Seq<Seq<char>> = Seq::empty();
    let mut i: usize = 0;
    while i < v.len()
        invariant
            i <= v.len(),
            piece_scan(v@.take(i as int)) == (finished, current@),
            done@.len() == finished.len(),
            forall|k: int| 0 <= k < done@.len() ==> #[trigger] done@[k]@ == finished[k],
        decreases v.len() - i,
    {
        let c = v[i];
        assert(v@.take(i + 1).drop_last() =~= v@.take(i as int));
        assert(v@.take(i + 1).last() == c);
        if c == ',' {
            let piece = current;
            proof {
                finished = finished.push(piece@);
            }
            done.push(piece);
            current = Vec::new();
            assert(current@ =~= Seq::<char>::empty());
        } else {
            current.push(c);
        }
        i += 1;
    }
    assert(v@.take(v.len() as int) =~= v@);
    let ghost last = current@;
    done.push(current);
    assert(done@[done@.len() - 1]@ == last);
    done
}

fn trim_quotes(v: &Vec<char>) -> (r: Vec<char>)
    ensures
        r@ == trim_end_quotes(trim_start_quotes(v@)),
{
    let n = v.len();
    let mut start: usize = 0;
    assert(v@.skip(0) =~= v@);
    while start < n && v[start] == '"'
        invariant
            start <= n,
            n == v@.len(),
            trim_start_quotes(v@) == trim_start_quotes(v@.skip(start as int)),
        decreases n - start,
    {
        assert(v@.skip(start as int)[0] == v@[start as int]);
        assert(v@.skip(start as int).drop_first() =~= v@.skip(start + 1));
        start += 1;
    }
    let ghost front = v@.skip(start as int);
    assert(trim_start_quotes(front) == front);
    let mut end: usize = n;
    assert(front.take(front.len() as int) =~= front);
    while end > start && v[end - 1] == '"'
        invariant
            start <= end <= n,
            n == v@.len(),
            front == v@.skip(start as int),
            trim_end_quotes(front) == trim_end_quotes(front.take(end - start)),
        decreases end,
    {
        assert(front.take(end - start).last() == v@[end - 1]);
        assert(front.take(end - start).drop_last() =~= front.take(end - 1 - start));
        end -= 1;
    }
    let mut out: Vec<char> = Vec::new();
    let mut k: usize = start;
    while k < end
        invariant
            start <= k <= end <= n,
            n == v@.len(),
            out@ == v@.subrange(start as int, k as int),
        decreases end - k,
    {
        out.push(v[k]);
        k += 1;
        assert(out@ =~= v@.subrange(start as int, k as int));
    }
    assert(out@ =~= front.take(end - start));
    out
}

/// The names of a list's inside, in written order, blank ones dropped.
fn items_of(inside: &Vec<char>) -> (r: Vec<Vec<char>>)
    ensures
        r@.len() == list_items(inside@).len(),
        forall|k: int| 0 <= k < r@.len() ==> #[trigger] r@[k]@ == list_items(inside@)[k],
{
    let pieces = split_commas(inside);
    let ghost all = comma_pieces(inside@);
    let ghost mapped = all.map_values(|p: Seq<char>| list_item(p));
    let ghost pred = |s: Seq<char>| nonblank(s);
    let mut out: Vec<Vec<char>> = Vec::new();
    let mut i: usize = 0;
    while i < pieces.len()
        invariant
            i <= pieces.len(),
            pieces@.len() == all.len(),
            forall|k: int| 0 <= k < pieces@.len() ==> #[trigger] pieces@[k]@ == all[k],
            mapped == all.map_values(|p: Seq<char>| list_item(p)),
            pred == |s: Seq<char>| nonblank(s),
            out@.len() == mapped.take(i as int).filter(pred).len(),
            forall|k: int| 0 <= k < out@.len() ==> #[trigger] out@[k]@ == mapped.take(i as int).filter(pred)[k],
        decreases pieces.len() - i,
    {
        let trimmed = trim_chars(&pieces[i]);
        let item = trim_quotes(&trimmed);
        proof {
            assert(item@ == mapped[i as int]);
            assert(mapped.take(i + 1) =~= mapped.take(i as int).push(mapped[i as int]));
            mapped.take(i as int).lemma_filter_push(mapped[i as int], pred);
        }
        if item.len() > 0 {
            out.push(item);
        }
        i += 1;
    }
    assert(mapped.take(pieces.len() as int) =~= mapped);
    out
}

/// The character views of `v`.
pub open spec fn views(v: Seq<Vec<char>>) -> Seq<Seq<char>> {
    v.map_values(|x: Vec<char>| x@)
}

/// Sorts names into `String` order.
fn sort_names(names: Vec<Vec<char>>) -> (r: Vec<Vec<char>>)
    ensures
        names_sorted(views(r@)),
        views(r@).to_multiset() == views(names@).to_multiset(),
{
    let ghost original = views(names@);
    let mut rest = names;
    let mut out: Vec<Vec<char>> = Vec::new();
    assert(views(out@).to_multiset() =~= vstd::multiset::Multiset::empty());
    while rest.len() > 0
        invariant
            views(out@).to_multiset().add(views(rest@).to_multiset()) == original.to_multiset(),
            names_sorted(views(out@)),
        decreases rest.len(),
    {
        let ghost rest_before = views(rest@);
        let e = rest.remove(0);
        let ghost ev = e@;
        proof {
            assert(rest_before =~= seq![ev] + views(rest@));
            vstd::seq_lib::lemma_multiset_commutative(seq![ev], views(rest@));
            assert(rest_before.to_multiset() =~= views(rest@).to_multiset().insert(ev));
        }
        let mut p: usize = 0;
        while p < out.len() && !lex_less(&e, &out[p])
            invariant
                p <= out.len(),
                ev == e@,
                views(out@).len() == out@.len(),
                forall|k: int| 0 <= k < p ==> !lex_lt(ev, #[trigger] views(out@)[k]),
            decreases out.len() - p,
        {
            assert(views(out@)[p as int] == out@[p as int]@);
            p += 1;
        }
        let ghost old_v = views(out@);
        out.insert(p, e);
        proof {
            let out_v = views(out@);
            assert(out_v =~= old_v.take(p as int).push(ev) + old_v.skip(p as int));
            assert forall|i: int, j: int| 0 <= i < j < out_v.len() implies !lex_lt(#[trigger] out_v[j], #[trigger] out_v[i]) by {
                if i < p && j == p {
                    assert(out_v[i] == old_v[i]);
                } else if i < p && j > p {
                    assert(out_v[i] == old_v[i]);
                    assert(out_v[j] == old_v[j - 1]);
                } else if i == p && j > p {
                    assert(out_v[j] == old_v[j - 1]);
                    assert(lex_lt(ev, old_v[p as int]));
                    if lex_lt(old_v[j - 1], ev) {
                        lemma_lex_transitive(old_v[j - 1], ev, old_v[p as int]);
                        if j - 1 == p {
                            lemma_lex_irreflexive(old_v[p as int]);
                        }
                    }
                } else if j < p {
                    assert(out_v[i] == old_v[i]);
                    assert(out_v[j] == old_v[j]);
                } else {
                    assert(out_v[i] == old_v[i - 1]);
                    assert(out_v[j] == old_v[j - 1]);
                }
            }
            vstd::seq_lib::lemma_multiset_commutative(old_v.take(p as int).push(ev), old_v.skip(p as int));
            vstd::seq_lib::lemma_multiset_commutative(old_v.take(p as int), old_v.skip(p as int));
            assert(old_v =~= old_v.take(p as int) + old_v.skip(p as int));
            assert(out_v.to_multiset() =~= old_v.to_multiset().insert(ev));
        }
    }
    proof {
        assert(views(rest@).to_multiset() =~= vstd::multiset::Multiset::empty());
        assert(views(out@).to_multiset().add(views(rest@).to_multiset()) =~= views(out@).to_multiset());
    }
    out
}

fn to_strings(v: &Vec<Vec<char>>) -> (r: Vec<String>)
    ensures
        r@.len() == v@.len(),
        forall|k: int| 0 <= k < r@.len() ==> #[trigger] r@[k]@ == v@[k]@,
{
    let mut out: Vec<String> = Vec::new();
    let mut i: usize = 0;
    while i < v.len()
        invariant
            i <= v.len(),
            out@.len() == i,
            forall|k: int| 0 <= k < i ==> #[trigger] out@[k]@ == v@[k]@,
        decreases v.len() - i,
    {
        out.push(string_from_chars(&v[i]));
        i += 1;
    }
    out
}

fn key_prefix(name: &str, tail: &str) -> (r: Vec<char>)
    ensures
        r@ == name@ + tail@,
{
    let mut v = chars_vec(name);
    let t = chars_vec(tail);
    let mut i: usize = 0;
    let ghost start = v@;
    while i < t.len()
        invariant
            i <= t.len(),
            v@ == start + t@.take(i as int),
        decreases t.len() - i,
    {
        v.push(t[i]);
        i += 1;
        assert(v@ =~= start + t@.take(i as int));
    }
    assert(t@.take(t.len() as int) =~= t@);
    v
}

/// The quoted value of `name` (`name = "value"`), from the first line of
/// that shape.
pub fn manifest_value(manifest: &str, name: &str) -> (r: Option<String>)
    ensures
        match spec_manifest_value(manifest@, name@) {
            Some(x) => r matches Some(s) && s@ == x,
            None => r is None,
        },
{
    let open = key_prefix(name, " = \"");
    match find_line(manifest, &open, '"') {
        Some(v) => Some(string_from_chars(&v)),
        None => None,
    }
}

/// The names listed under `name` (`name = ["a", "b"]`), blank ones dropped,
/// in `String` order.
pub fn manifest_list(manifest: &str, name: &str) -> (r: Option<Vec<String>>)
    ensures
        spec_manifest_list(manifest@, name@) is None ==> r is None,
        spec_manifest_list(manifest@, name@) matches Some(inside) ==> (r matches Some(v) && {
            let g = v@.map_values(|s: String| s@);
            &&& names_sorted(g)
            &&& g.to_multiset() == list_items(inside).to_multiset()
        }),
{
    let open = key_prefix(name, " = [");
    let inside = match find_line(manifest, &open, ']') {
        Some(v) => v,
        None => {
            return None;
        },
    };
    let items = items_of(&inside);
    let ghost item_views = list_items(inside@);
    proof {
        assert(views(items@) =~= item_views);
    }
    let sorted = sort_names(items);
    let out = to_strings(&sorted);
    proof {
        assert(out@.map_values(|s: String| s@) =~= views(sorted@));
    }
    Some(out)
}

proof fn lemma_first_equals_in_range(s: Seq<char>)
    ensures
        first_equals(s) matches Some(k) ==> 0 <= k < s.len(),
    decreases s.len(),
{
    if s.len() > 0 && s[0] != '=' {
        lemma_first_equals_in_range(s.drop_first());
    }
}

fn find_equals(v: &Vec<char>) -> (r: Option<usize>)
    ensures
        match first_equals(v@) {
            Some(k) => r == Some(k as usize),
            None => r is None,
        },
        r matches Some(k) ==> k < v.len(),
{
    let mut i: usize = 0;
    assert(v@.skip(0) =~= v@);
    while i < v.len()
        invariant
            i <= v.len(),
            forall|k: int| 0 <= k < i ==> v@[k] != '=',
            first_equals(v@) == (match first_equals(v@.skip(i as int)) {
                Some(k) => Some(k + i),
                None => None,
            }),
        decreases v.len() - i,
    {
        assert(v@.skip(i as int)[0] == v@[i as int]);
        assert(v@.skip(i as int).drop_first() =~= v@.skip(i + 1));
        if v[i] == '=' {
            return Some(i);
        }
        i += 1;
    }
    None
}

fn slice_chars(v: &Vec<char>, from: usize, to: usize) -> (r: Vec<char>)
    requires
        from <= to <= v.len(),
    ensures
        r@ == v@.subrange(from as int, to as int),
{
    let mut out: Vec<char> = Vec::new();
    let mut k: usize = from;
    while k < to
        invariant
            from <= k <= to <= v.len(),
            out@ == v@.subrange(from as int, k as int),
        decreases to - k,
    {
        out.push(v[k]);
        k += 1;
        assert(out@ =~= v@.subrange(from as int, k as int));
    }
    out
}

/// The library table (`library_majors = {avcodec = 61, ...}`) in written
/// order; none when the line is missing or an entry is not `name = number`.
pub fn manifest_library_majors(manifest: &str) -> (r: Option<Vec<(String, u32)>>)
    ensures
        match spec_library_majors(manifest@) {
            Some(es) => r matches Some(v) && v@.len() == es.len() && forall|k: int|
                0 <= k < es.len() ==> (#[trigger] v@[k]).0@ == es[k].0 && v@[k].1 == es[k].1,
            None => r is None,
        },
{
    let open = chars_vec("library_majors = {");
    let inside = match find_line(manifest, &open, '}') {
        Some(v) => v,
        None => {
            return None;
        },
    };
    let entries = split_commas(&inside);
    let ghost es = comma_pieces(inside@);
    let mut out: Vec<(String, u32)> = Vec::new();
    let mut i: usize = 0;
    while i < entries.len()
        invariant
            i <= entries.len(),
            es == comma_pieces(inside@),
            manifest_line(manifest@, "library_majors = {"@, '}') == Some(inside@),
            entries@.len() == es.len(),
            forall|k: int| 0 <= k < entries@.len() ==> #[trigger] entries@[k]@ == es[k],
            major_entries(es.take(i as int)) matches Some(done) && out@.len() == done.len()
                && forall|k: int| 0 <= k < done.len() ==> (#[trigger] out@[k]).0@ == done[k].0 && out@[k].1 == done[k].1,
        decreases entries.len() - i,
    {
        let entry = &entries[i];
        assert(entries@[i as int]@ == es[i as int]);
        assert(es.take(i + 1).drop_last() =~= es.take(i as int));
        assert(es.take(i + 1).last() == es[i as int]);
        let eq = match find_equals(entry) {
            Some(k) => k,
            None => {
                assert(major_entries(es.take(i + 1)) is None);
                assert(es =~= es.take(i + 1) + es.skip(i + 1));
                proof { lemma_entries_prefix_fails(es, i as int + 1); }
                return None;
            },
        };
        proof {
            lemma_first_equals_in_range(entry@);
        }
        let name = trim_chars(&slice_chars(entry, 0, eq));
        let digits = trim_chars(&slice_chars(entry, eq + 1, entry.len()));
        let text = string_from_chars(&digits);
        proof {
            assert(entry@.take(eq as int) =~= entry@.subrange(0, eq as int));
            assert(entry@.skip(eq + 1) =~= entry@.subrange(eq + 1, entry@.len() as int));
        }
        match parse_u32(text.as_str()) {
            Some(major) => {
                out.push((string_from_chars(&name), major));
            },
            None => {
                assert(major_entries(es.take(i + 1)) is None);
                proof { lemma_entries_prefix_fails(es, i as int + 1); }
                return None;
            },
        }
        i += 1;
    }
    assert(es.take(entries.len() as int) =~= es);
    Some(out)
}

/// Once a prefix of the entries is malformed, so is the whole table.
proof fn lemma_entries_prefix_fails(es: Seq<Seq<char>>, n: int)
    requires
        0 <= n <= es.len(),
        major_entries(es.take(n)) is None,
    ensures
        major_entries(es) is None,
    decreases es.len() - n,
{
    if n < es.len() {
        assert(es.take(n + 1).drop_last() =~= es.take(n));
        lemma_entries_prefix_fails(es, n + 1);
    } else {
        assert(es.take(n) =~= es);
    }
}

} // verus!
