//! Bounded, terminal-safe rendering of diagnostics received from a child
//! process: ANSI/OSC escape sequences are dropped, control characters become
//! spaces, the text is cut at a UTF-8 byte budget and trimmed.

use vstd::prelude::*;

use crate::terminal::c0_or_c1;
use crate::text::{chars_vec, string_from_chars};

verus! {

/// Bytes in the UTF-8 encoding of `c`.
pub open spec fn utf8_len(c: char) -> nat {
    let n = c as u32;
    if n < 0x80 {
        1
    } else if n < 0x800 {
        2
    } else if n < 0x10000 {
        3
    } else {
        4
    }
}

/// Bytes in the UTF-8 encoding of a character sequence.
pub open spec fn utf8_size(s: Seq<char>) -> nat
    decreases s.len(),
{
    if s.len() == 0 {
        0
    } else {
        utf8_size(s.drop_last()) + utf8_len(s.last())
    }
}

/// Unicode `White_Space` characters (what `str::trim` removes).
pub open spec fn is_white_space(c: char) -> bool {
    let n = c as u32;
    (0x09 <= n && n <= 0x0D) || n == 0x20 || n == 0x85 || n == 0xA0 || n == 0x1680 || (0x2000 <= n
        && n <= 0x200A) || n == 0x2028 || n == 0x2029 || n == 0x202F || n == 0x205F || n == 0x3000
}

/// `s` without leading white space.
pub open spec fn trim_start_seq(s: Seq<char>) -> Seq<char>
    decreases s.len(),
{
    if s.len() > 0 && is_white_space(s[0]) {
        trim_start_seq(s.drop_first())
    } else {
        s
    }
}

/// `s` without trailing white space.
pub open spec fn trim_end_seq(s: Seq<char>) -> Seq<char>
    decreases s.len(),
{
    if s.len() > 0 && is_white_space(s.last()) {
        trim_end_seq(s.drop_last())
    } else {
        s
    }
}

/// `s` without leading or trailing white space.
pub open spec fn trim_seq(s: Seq<char>) -> Seq<char> {
    trim_end_seq(trim_start_seq(s))
}

/// Scanner state: (escape state, output so far, output bytes, budget hit).
/// Escape state 0 is plain text, 1 follows an ESC, 2 is inside an OSC string.
pub type ScanState = (u8, Seq<char>, nat, bool);

/// One character of the scan.
pub open spec fn sanitize_step(st: ScanState, ch: char, max_bytes: nat) -> ScanState {
    let (escape, out, bytes, stopped) = st;
    if stopped {
        st
    } else if escape != 0 {
        if escape == 1 && ch == ']' {
            (2, out, bytes, false)
        } else if ch == '\u{7}' || (escape == 1 && (('a' <= ch && ch <= 'z') || ('A' <= ch && ch
            <= 'Z'))) {
            (0, out, bytes, false)
        } else {
            st
        }
    } else if ch == '\u{1b}' {
        (1, out, bytes, false)
    } else {
        let safe = if c0_or_c1(ch) { ' ' } else { ch };
        if bytes + utf8_len(safe) > max_bytes {
            (escape, out, bytes, true)
        } else {
            (escape, out.push(safe), bytes + utf8_len(safe), false)
        }
    }
}

/// The scan over a whole character sequence.
pub open spec fn sanitize_scan(s: Seq<char>, max_bytes: nat) -> ScanState
    decreases s.len(),
{
    if s.len() == 0 {
        (0, Seq::empty(), 0, false)
    } else {
        sanitize_step(sanitize_scan(s.drop_last(), max_bytes), s.last(), max_bytes)
    }
}

/// The sanitized diagnostic.
pub open spec fn spec_sanitize_diagnostic(s: Seq<char>, max_bytes: nat) -> Seq<char> {
    trim_seq(sanitize_scan(s, max_bytes).1)
}

fn utf8_width(c: char) -> (n: usize)
    ensures
        n == utf8_len(c),
{
    let v = c as u32;
    if v < 0x80 {
        1
    } else if v < 0x800 {
        2
    } else if v < 0x10000 {
        3
    } else {
        4
    }
}

pub(crate) fn white_space(c: char) -> (b: bool)
    ensures
        b == is_white_space(c),
{
    let n = c as u32;
    (0x09 <= n && n <= 0x0D) || n == 0x20 || n == 0x85 || n == 0xA0 || n == 0x1680 || (0x2000 <= n
        && n <= 0x200A) || n == 0x2028 || n == 0x2029 || n == 0x202F || n == 0x205F || n == 0x3000
}

proof fn lemma_trim_start_skip(s: Seq<char>, k: int)
    requires
        0 <= k < s.len(),
        is_white_space(s[k]),
    ensures
        trim_start_seq(s.skip(k)) == trim_start_seq(s.skip(k + 1)),
{
    assert(s.skip(k).drop_first() =~= s.skip(k + 1));
}

proof fn lemma_trim_end_take(s: Seq<char>, k: int)
    requires
        0 < k <= s.len(),
        is_white_space(s[k - 1]),
    ensures
        trim_end_seq(s.take(k)) == trim_end_seq(s.take(k - 1)),
{
    assert(s.take(k).drop_last() =~= s.take(k - 1));
}

/// `v` without leading or trailing white space.
pub fn trim_chars(v: &Vec<char>) -> (r: Vec<char>)
    ensures
        r@ == trim_seq(v@),
{
    let n = v.len();
    let mut start: usize = 0;
    assert(v@.skip(0) =~= v@);
    while start < n && white_space(v[start])
        invariant
            start <= n,
            n == v@.len(),
            trim_start_seq(v@) == trim_start_seq(v@.skip(start as int)),
        decreases n - start,
    {
        proof {
            lemma_trim_start_skip(v@, start as int);
        }
        start += 1;
    }
    assert(v@.skip(0) =~= v@);
    let ghost u = v@.skip(start as int);
    assert(trim_start_seq(u) == u);
    let mut end: usize = n;
    assert(u.take(n - start) =~= u);
    while end > start && white_space(v[end - 1])
        invariant
            start <= end <= n,
            n == v@.len(),
            u == v@.skip(start as int),
            trim_end_seq(u) == trim_end_seq(u.take(end - start)),
        decreases end,
    {
        proof {
            assert(u[end - start - 1] == v@[end - 1]);
            lemma_trim_end_take(u, end - start);
        }
        end -= 1;
    }
    assert(u.take(n - start) =~= u);
    let ghost w = u.take(end - start);
    assert(trim_end_seq(w) == w);
    let mut out: Vec<char> = Vec::new();
    let mut i = start;
    while i < end
        invariant
            start <= i <= end <= n,
            n == v@.len(),
            out@ == v@.subrange(start as int, i as int),
        decreases end - i,
    {
        out.push(v[i]);
        i += 1;
        assert(out@ =~= v@.subrange(start as int, i as int));
    }
    assert(out@ =~= w);
    out
}

/// Renders a child-process diagnostic for display: drops ANSI CSI and OSC
/// escape sequences, replaces control characters with spaces, keeps at most
/// `max_bytes` bytes of UTF-8 (whole characters only) and trims white space.
pub fn sanitize_diagnostic(input: &str, max_bytes: usize) -> (r: String)
    ensures
        r@ == spec_sanitize_diagnostic(input@, max_bytes as nat),
        utf8_size(r@) <= max_bytes,
        forall|i: int| 0 <= i < r@.len() ==> !c0_or_c1(#[trigger] r@[i]),
{
    let chars = chars_vec(input);
    let mut escape: u8 = 0;
    let mut out: Vec<char> = Vec::new();
    let mut bytes: usize = 0;
    let mut stopped = false;
    let mut i: usize = 0;
    while i < chars.len()
        invariant
            i <= chars.len(),
            chars@ == input@,
            bytes <= max_bytes,
            sanitize_scan(chars@.take(i as int), max_bytes as nat) == (escape, out@, bytes as nat, stopped),
        decreases chars.len() - i,
    {
        proof {
            assert(chars@.take(i + 1).drop_last() =~= chars@.take(i as int));
        }
        let ch = chars[i];
        if stopped {
        } else if escape != 0 {
            if escape == 1 && ch == ']' {
                escape = 2;
            } else if ch == '\u{7}' || (escape == 1 && (('a' <= ch && ch <= 'z') || ('A' <= ch && ch <= 'Z'))) {
                escape = 0;
            }
        } else if ch == '\u{1b}' {
            escape = 1;
        } else {
            let n = ch as u32;
            let safe = if n <= 0x1F || (0x7F <= n && n <= 0x9F) { ' ' } else { ch };
            let w = utf8_width(safe);
            if w > max_bytes - bytes {
                stopped = true;
            } else {
                out.push(safe);
                bytes = bytes + w;
            }
        }
        i += 1;
    }
    assert(chars@.take(chars.len() as int) =~= chars@);
    proof {
        lemma_scan_bounds(input@, max_bytes as nat);
    }
    let trimmed = trim_chars(&out);
    proof {
        lemma_trim_bounds(out@);
    }
    string_from_chars(&trimmed)
}

proof fn lemma_utf8_size_push(s: Seq<char>, c: char)
    ensures
        utf8_size(s.push(c)) == utf8_size(s) + utf8_len(c),
{
    assert(s.push(c).drop_last() =~= s);
}

proof fn lemma_scan_bounds(s: Seq<char>, max_bytes: nat)
    ensures
        sanitize_scan(s, max_bytes).2 == utf8_size(sanitize_scan(s, max_bytes).1),
        sanitize_scan(s, max_bytes).2 <= max_bytes,
        forall|i: int| 0 <= i < sanitize_scan(s, max_bytes).1.len() ==> !c0_or_c1(
            #[trigger] sanitize_scan(s, max_bytes).1[i],
        ),
    decreases s.len(),
{
    if s.len() > 0 {
        lemma_scan_bounds(s.drop_last(), max_bytes);
        let prev = sanitize_scan(s.drop_last(), max_bytes);
        let safe = if c0_or_c1(s.last()) { ' ' } else { s.last() };
        lemma_utf8_size_push(prev.1, safe);
    }
}

proof fn lemma_utf8_size_drop_first(s: Seq<char>)
    requires
        s.len() > 0,
    ensures
        utf8_size(s) == utf8_len(s[0]) + utf8_size(s.drop_first()),
    decreases s.len(),
{
    if s.len() > 1 {
        lemma_utf8_size_drop_first(s.drop_last());
        assert(s.drop_last().drop_first() =~= s.drop_first().drop_last());
        assert(s.drop_first().last() == s.last());
        assert(utf8_size(s.drop_first()) == utf8_size(s.drop_first().drop_last()) + utf8_len(
            s.drop_first().last(),
        ));
    } else {
        assert(s.drop_first().len() == 0);
        assert(s.drop_last().len() == 0);
        assert(utf8_size(s.drop_last()) == 0);
        assert(utf8_size(s.drop_first()) == 0);
        assert(s.last() == s[0]);
    }
}

proof fn lemma_trim_start_bounds(s: Seq<char>)
    ensures
        utf8_size(trim_start_seq(s)) <= utf8_size(s),
        forall|i: int| 0 <= i < trim_start_seq(s).len() ==> exists|j: int| 0 <= j < s.len()
            && #[trigger] trim_start_seq(s)[i] == s[j],
    decreases s.len(),
{
    if s.len() > 0 && is_white_space(s[0]) {
        lemma_trim_start_bounds(s.drop_first());
        lemma_utf8_size_drop_first(s);
        let t = trim_start_seq(s);
        assert forall|i: int| 0 <= i < t.len() implies exists|j: int| 0 <= j < s.len()
            && #[trigger] t[i] == s[j] by {
            let j = choose|j: int| 0 <= j < s.drop_first().len() && t[i] == s.drop_first()[j];
            assert(t[i] == s[j + 1]);
        }
    } else {
        let t = trim_start_seq(s);
        assert forall|i: int| 0 <= i < t.len() implies exists|j: int| 0 <= j < s.len()
            && #[trigger] t[i] == s[j] by {
            assert(t[i] == s[i]);
        }
    }
}

proof fn lemma_trim_end_bounds(s: Seq<char>)
    ensures
        utf8_size(trim_end_seq(s)) <= utf8_size(s),
        forall|i: int| 0 <= i < trim_end_seq(s).len() ==> exists|j: int| 0 <= j < s.len()
            && #[trigger] trim_end_seq(s)[i] == s[j],
    decreases s.len(),
{
    if s.len() > 0 && is_white_space(s.last()) {
        lemma_trim_end_bounds(s.drop_last());
        let t = trim_end_seq(s);
        assert forall|i: int| 0 <= i < t.len() implies exists|j: int| 0 <= j < s.len()
            && #[trigger] t[i] == s[j] by {
            let j = choose|j: int| 0 <= j < s.drop_last().len() && t[i] == s.drop_last()[j];
            assert(t[i] == s[j]);
        }
    } else {
        let t = trim_end_seq(s);
        assert forall|i: int| 0 <= i < t.len() implies exists|j: int| 0 <= j < s.len()
            && #[trigger] t[i] == s[j] by {
            assert(t[i] == s[i]);
        }
    }
}

proof fn lemma_trim_bounds(s: Seq<char>)
    ensures
        utf8_size(trim_seq(s)) <= utf8_size(s),
        forall|i: int| 0 <= i < trim_seq(s).len() ==> exists|j: int| 0 <= j < s.len()
            && #[trigger] trim_seq(s)[i] == s[j],
{
    lemma_trim_start_bounds(s);
    lemma_trim_end_bounds(trim_start_seq(s));
    let t = trim_seq(s);
    let m = trim_start_seq(s);
    assert forall|i: int| 0 <= i < t.len() implies exists|j: int| 0 <= j < s.len()
        && #[trigger] t[i] == s[j] by {
        let k = choose|k: int| 0 <= k < m.len() && t[i] == m[k];
        let j = choose|j: int| 0 <= j < s.len() && m[k] == s[j];
    }
}

} // verus!
