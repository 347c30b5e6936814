//! The text form under which tracks are kept unique: `~` expanded to the
//! home directory, then the file system's canonical path, or else the path
//! made absolute against the working directory with `.` and `..` resolved.

use vstd::prelude::*;

use crate::text::{ascii_lower_seq, chars_vec, string_from_chars, string_from_str};

verus! {

/// `base` joined with `rest` as `Path::join` does on this platform: an
/// absolute `rest` replaces `base`, otherwise one `/` separates them.
pub open spec fn spec_join(base: Seq<char>, rest: Seq<char>) -> Seq<char> {
    if rest.len() > 0 && rest[0] == '/' {
        rest
    } else if base.len() == 0 {
        rest
    } else if base.last() == '/' {
        base + rest
    } else {
        base + seq!['/'] + rest
    }
}

/// `path` with a leading `~` or `~/` replaced by the home directory, when
/// one is known.
pub open spec fn spec_expand_user(path: Seq<char>, home: Option<Seq<char>>) -> Seq<char> {
    match home {
        Some(h) => if path.len() >= 2 && path[0] == '~' && path[1] == '/' {
            spec_join(h, path.skip(2))
        } else if path == seq!['~'] {
            h
        } else {
            path
        },
        None => path,
    }
}

/// Scanner state for the components of a path: resolved names, current name.
pub type ComponentScan = (Seq<Seq<char>>, Seq<char>);

/// One name of the path, applied to the resolved names: `.` and empty names
/// change nothing, `..` drops the last name, others are appended.
pub open spec fn apply_name(stack: Seq<Seq<char>>, name: Seq<char>) -> Seq<Seq<char>> {
    if name.len() == 0 || name == seq!['.'] {
        stack
    } else if name == seq!['.', '.'] {
        if stack.len() > 0 { stack.drop_last() } else { stack }
    } else {
        stack.push(name)
    }
}

/// One character of the scan.
pub open spec fn component_step(st: ComponentScan, c: char) -> ComponentScan {
    if c == '/' { (apply_name(st.0, st.1), Seq::empty()) } else { (st.0, st.1.push(c)) }
}

/// The scan after all of `s`.
pub open spec fn component_scan(s: Seq<char>) -> ComponentScan
    decreases s.len(),
{
    if s.len() == 0 {
        (Seq::empty(), Seq::empty())
    } else {
        component_step(component_scan(s.drop_last()), s.last())
    }
}

/// The names that remain of `s` once `.` and `..` are resolved.
pub open spec fn resolved_names(s: Seq<char>) -> Seq<Seq<char>> {
    let st = component_scan(s);
    apply_name(st.0, st.1)
}

/// Names joined by `/`.
pub open spec fn join_names(names: Seq<Seq<char>>) -> Seq<char>
    decreases names.len(),
{
    if names.len() == 0 {
        Seq::empty()
    } else if names.len() == 1 {
        names[0]
    } else {
        join_names(names.drop_last()) + seq!['/'] + names.last()
    }
}

/// `path` with `.` and `..` components resolved lexically; an absolute path
/// stays absolute and `..` never climbs above its start.
pub open spec fn spec_normalize_dots(path: Seq<char>) -> Seq<char> {
    let names = join_names(resolved_names(path));
    if path.len() > 0 && path[0] == '/' { seq!['/'] + names } else { names }
}

/// The absolute form of `path`: relative paths are taken from `cwd`, then
/// `.` and `..` are resolved.
pub open spec fn spec_absolute_path(path: Seq<char>, cwd: Seq<char>) -> Seq<char> {
    if path.len() > 0 && path[0] == '/' {
        spec_normalize_dots(path)
    } else {
        spec_normalize_dots(spec_join(cwd, path))
    }
}

/// `base` joined with `rest` as `Path::join` does.
pub fn join_text(base: &Vec<char>, rest: &Vec<char>) -> (r: Vec<char>)
    ensures
        r@ == spec_join(base@, rest@),
{
    let mut out: Vec<char> = Vec::new();
    if rest.len() > 0 && rest[0] == '/' {
        crate::fmt::extend_chars(&mut out, rest);
        assert(out@ =~= rest@);
        return out;
    }
    crate::fmt::extend_chars(&mut out, base);
    if base.len() > 0 && base[base.len() - 1] != '/' {
        out.push('/');
    }
    crate::fmt::extend_chars(&mut out, rest);
    proof {
        if base@.len() == 0 {
            assert(out@ =~= rest@);
        } else if base@.last() == '/' {
            assert(out@ =~= base@ + rest@);
        } else {
            assert(out@ =~= base@ + seq!['/'] + rest@);
        }
    }
    out
}

/// `path` with a leading `~` or `~/` replaced by `home`, when known.
pub fn expand_user(path: &str, home: Option<&str>) -> (r: String)
    ensures
        r@ == spec_expand_user(path@, match home { Some(h) => Some(h@), None => None }),
{
    let p = chars_vec(path);
    match home {
        Some(h) => {
            if p.len() >= 2 && p[0] == '~' && p[1] == '/' {
                let mut rest: Vec<char> = Vec::new();
                let mut i: usize = 2;
                while i < p.len()
                    invariant
                        2 <= i <= p.len(),
                        rest@ == p@.subrange(2, i as int),
                    decreases p.len() - i,
                {
                    rest.push(p[i]);
                    i += 1;
                    assert(rest@ =~= p@.subrange(2, i as int));
                }
                assert(rest@ =~= p@.skip(2));
                let hv = chars_vec(h);
                let joined = join_text(&hv, &rest);
                string_from_chars(&joined)
            } else if p.len() == 1 && p[0] == '~' {
                assert(p@ =~= seq!['~']);
                string_from_str(h)
            } else {
                proof {
                    if p@ == seq!['~'] {
                        assert(p@.len() == 1);
                    }
                }
                string_from_str(path)
            }
        },
        None => string_from_str(path),
    }
}

fn apply_name_exec(stack: &mut Vec<Vec<char>>, name: Vec<char>)
    ensures
        final(stack)@.map_values(|n: Vec<char>| n@) == apply_name(old(stack)@.map_values(|n: Vec<char>| n@), name@),
{
    let ghost before = stack@.map_values(|n: Vec<char>| n@);
    if name.len() == 0 || (name.len() == 1 && name[0] == '.') {
        proof {
            if name@.len() == 1 {
                assert(name@ =~= seq!['.']);
            }
        }
        return;
    }
    if name.len() == 2 && name[0] == '.' && name[1] == '.' {
        assert(name@ =~= seq!['.', '.']);
        if stack.len() > 0 {
            stack.pop();
            assert(stack@.map_values(|n: Vec<char>| n@) =~= before.drop_last());
        }
        return;
    }
    proof {
        if name@ == seq!['.'] {
            assert(name@.len() == 1);
        }
        if name@ == seq!['.', '.'] {
            assert(name@.len() == 2);
        }
    }
    let ghost v = name@;
    stack.push(name);
    assert(stack@.map_values(|n: Vec<char>| n@) =~= before.push(v));
}

/// `path` with `.` and `..` components resolved lexically.
pub fn normalize_dot_components(path: &str) -> (r: String)
    ensures
        r@ == spec_normalize_dots(path@),
{
    let p = chars_vec(path);
    let mut stack: Vec<Vec<char>> = Vec::new();
    let mut current: Vec<char> = Vec::new();
    let mut i: usize = 0;
    while i < p.len()
        invariant
            i <= p.len(),
            p@ == path@,
            component_scan(p@.take(i as int)) == (stack@.map_values(|n: Vec<char>| n@), current@),
        decreases p.len() - i,
    {
        let c = p[i];
        proof {
            assert(p@.take(i + 1).drop_last() =~= p@.take(i as int));
            assert(p@.take(i + 1).last() == c);
        }
        if c == '/' {
            let name = current;
            apply_name_exec(&mut stack, name);
            current = Vec::new();
            assert(current@ =~= Seq::<char>::empty());
        } else {
            current.push(c);
        }
        i += 1;
    }
    assert(p@.take(p.len() as int) =~= p@);
    apply_name_exec(&mut stack, current);
    let ghost names = stack@.map_values(|n: Vec<char>| n@);
    assert(names == resolved_names(path@));
    let mut out: Vec<char> = Vec::new();
    if p.len() > 0 && p[0] == '/' {
        out.push('/');
    }
    let ghost prefix = out@;
    let mut k: usize = 0;
    while k < stack.len()
        invariant
            k <= stack.len(),
            names == stack@.map_values(|n: Vec<char>| n@),
            out@ == prefix + join_names(names.take(k as int)),
        decreases stack.len() - k,
    {
        if k > 0 {
            out.push('/');
        }
        crate::fmt::extend_chars(&mut out, &stack[k]);
        proof {
            let t = names.take(k + 1);
            assert(t.drop_last() =~= names.take(k as int));
            assert(t.last() == stack@[k as int]@);
            if k == 0 {
                assert(out@ =~= prefix + join_names(t));
            } else {
                assert(out@ =~= prefix + join_names(t));
            }
        }
        k += 1;
    }
    assert(names.take(stack.len() as int) =~= names);
    proof {
        if path@.len() > 0 && path@[0] == '/' {
            assert(out@ =~= seq!['/'] + join_names(names));
        } else {
            assert(out@ =~= join_names(names));
        }
    }
    string_from_chars(&out)
}

/// The absolute form of `path` against the working directory `cwd`.
pub fn absolute_path(path: &str, cwd: &str) -> (r: String)
    ensures
        r@ == spec_absolute_path(path@, cwd@),
{
    let p = chars_vec(path);
    if p.len() > 0 && p[0] == '/' {
        return normalize_dot_components(path);
    }
    let c = chars_vec(cwd);
    let joined = join_text(&c, &p);
    let text = string_from_chars(&joined);
    normalize_dot_components(text.as_str())
}

/// The Unicode lower-case form of a text (`str::to_lowercase`).
pub uninterp spec fn lowercase_text(t: Seq<char>) -> Seq<char>;

/// Whether every character of a text is ASCII.
pub open spec fn all_ascii(t: Seq<char>) -> bool {
    forall|i: int| 0 <= i < t.len() ==> (#[trigger] t[i] as u32) < 128
}

/// The lower-case form of a text (`str::to_lowercase`); on ASCII text that
/// is ASCII lower-casing.
#[verifier::external_body]
fn to_lowercase(text: &str) -> (r: String)
    ensures
        r@ == lowercase_text(text@),
        all_ascii(text@) ==> r@ == ascii_lower_seq(text@),
{
    text.to_lowercase()
}

/// A text with every `/` turned into `\`.
pub open spec fn backslashed(t: Seq<char>) -> Seq<char> {
    t.map_values(|c: char| if c == '/' { '\\' } else { c })
}

/// The Windows form of a stored path text: `/` turned into `\`, then
/// lower-cased.
pub fn windows_form(text: &str) -> (r: String)
    ensures
        r@ == lowercase_text(backslashed(text@)),
{
    let v = chars_vec(text);
    let mut out: Vec<char> = Vec::new();
    let mut i: usize = 0;
    while i < v.len()
        invariant
            i <= v.len(),
            v@ == text@,
            out@ == backslashed(v@.take(i as int)),
        decreases v.len() - i,
    {
        let c = v[i];
        out.push(if c == '/' { '\\' } else { c });
        i += 1;
        assert(out@ =~= backslashed(v@.take(i as int)));
    }
    assert(v@.take(v@.len() as int) =~= v@);
    let joined = string_from_chars(&out);
    to_lowercase(joined.as_str())
}

/// The unique form of a track path given as text, before the platform's
/// final step: the canonical path the file system gave for the
/// `~`-expanded path (`resolved`), or, when it gave none, that path made
/// absolute against `cwd`.
pub open spec fn spec_normalized_text(path: Seq<char>, home: Option<Seq<char>>, cwd: Seq<char>, resolved: Option<Seq<char>>) -> Seq<char> {
    match resolved {
        Some(c) => c,
        None => spec_absolute_path(spec_expand_user(path, home), cwd),
    }
}

/// The unique form of a track path given as text: the canonical path the
/// file system gave for the `~`-expanded path (`resolved`), or, when it gave
/// none, that path made absolute against `cwd`; on Windows (`windows`) then
/// with `/` turned into `\` and lower-cased.
pub fn normalize_path(path: &str, home: Option<&str>, cwd: &str, resolved: Option<&str>, windows: bool) -> (r: String)
    ensures
        r@ == if windows {
            lowercase_text(backslashed(spec_normalized_text(path@, match home { Some(h) => Some(h@), None => None }, cwd@, match resolved { Some(c) => Some(c@), None => None })))
        } else {
            spec_normalized_text(path@, match home { Some(h) => Some(h@), None => None }, cwd@, match resolved { Some(c) => Some(c@), None => None })
        },
{
    let text = match resolved {
        Some(c) => string_from_str(c),
        None => {
            let expanded = expand_user(path, home);
            absolute_path(expanded.as_str(), cwd)
        },
    };
    if windows {
        windows_form(text.as_str())
    } else {
        text
    }
}

/// A name that resolution keeps: not empty, not `.` or `..`, without `/`.
pub open spec fn plain_name(n: Seq<char>) -> bool {
    n.len() > 0 && n != seq!['.'] && n != seq!['.', '.'] && !n.contains('/')
}

/// The component scan of `t` continued from state `st`.
pub open spec fn scan_from(st: ComponentScan, t: Seq<char>) -> ComponentScan
    decreases t.len(),
{
    if t.len() == 0 {
        st
    } else {
        component_step(scan_from(st, t.drop_last()), t.last())
    }
}

proof fn lemma_scan_concat(s: Seq<char>, t: Seq<char>)
    ensures
        component_scan(s + t) == scan_from(component_scan(s), t),
    decreases t.len(),
{
    if t.len() == 0 {
        assert(s + t =~= s);
    } else {
        lemma_scan_concat(s, t.drop_last());
        assert((s + t).drop_last() =~= s + t.drop_last());
        assert((s + t).last() == t.last());
    }
}

proof fn lemma_scan_name(st: ComponentScan, n: Seq<char>)
    requires
        !n.contains('/'),
    ensures
        scan_from(st, n) == (st.0, st.1 + n),
    decreases n.len(),
{
    if n.len() == 0 {
        assert(st.1 + n =~= st.1);
    } else {
        let m = n.drop_last();
        assert(!m.contains('/')) by {
            if m.contains('/') {
                let k = choose|k: int| 0 <= k < m.len() && m[k] == '/';
                assert(n[k] == '/');
            }
        }
        lemma_scan_name(st, m);
        assert(n.last() != '/') by {
            if n.last() == '/' {
                assert(n[n.len() - 1] == '/');
            }
        }
        assert(st.1 + m + seq![n.last()] =~= st.1 + n);
        assert((st.1 + m).push(n.last()) =~= st.1 + n);
    }
}

/// Scanning plain names joined by `/` from an empty current name leaves all
/// but the last on the stack and the last as the current name.
proof fn lemma_scan_joined(stack: Seq<Seq<char>>, names: Seq<Seq<char>>)
    requires
        names.len() > 0,
        forall|i: int| 0 <= i < names.len() ==> plain_name(#[trigger] names[i]),
    ensures
        scan_from((stack, Seq::empty()), join_names(names)) == (stack + names.drop_last(), names.last()),
    decreases names.len(),
{
    if names.len() == 1 {
        lemma_scan_name((stack, Seq::empty()), names[0]);
        assert(Seq::<char>::empty() + names[0] =~= names[0]);
        assert(names.drop_last() =~= Seq::<Seq<char>>::empty());
        assert(stack + names.drop_last() =~= stack);
    } else {
        let front = names.drop_last();
        assert forall|i: int| 0 <= i < front.len() implies plain_name(#[trigger] front[i]) by {
            assert(front[i] == names[i]);
        }
        lemma_scan_joined(stack, front);
        let head = join_names(front) + seq!['/'];
        let st1 = scan_from((stack, Seq::empty()), join_names(front));
        assert(st1 == (stack + front.drop_last(), front.last()));
        lemma_scan_concat_from((stack, Seq::empty()), join_names(front), seq!['/']);
        let st2 = scan_from((stack, Seq::empty()), head);
        assert(scan_from(st1, seq!['/']) == component_step(st1, '/')) by {
            assert(seq!['/'].drop_last() =~= Seq::<char>::empty());
            assert(scan_from(st1, Seq::<char>::empty()) == st1);
            assert(seq!['/'].last() == '/');
        }
        assert(plain_name(front.last()));
        assert(st2 == (stack + front.drop_last() + seq![front.last()], Seq::<char>::empty()));
        assert(stack + front.drop_last() + seq![front.last()] =~= stack + front);
        lemma_scan_concat_from((stack, Seq::empty()), head, names.last());
        lemma_scan_name(st2, names.last());
        assert(join_names(names) == head + names.last()) by {
            assert(join_names(front) + seq!['/'] + names.last() =~= head + names.last());
        }
        assert(Seq::<char>::empty() + names.last() =~= names.last());
    }
}

proof fn lemma_scan_concat_from(st: ComponentScan, s: Seq<char>, t: Seq<char>)
    ensures
        scan_from(st, s + t) == scan_from(scan_from(st, s), t),
    decreases t.len(),
{
    if t.len() == 0 {
        assert(s + t =~= s);
    } else {
        lemma_scan_concat_from(st, s, t.drop_last());
        assert((s + t).drop_last() =~= s + t.drop_last());
        assert((s + t).last() == t.last());
    }
}

proof fn lemma_scan_is_from_empty(s: Seq<char>)
    ensures
        component_scan(s) == scan_from((Seq::empty(), Seq::empty()), s),
    decreases s.len(),
{
    if s.len() > 0 {
        lemma_scan_is_from_empty(s.drop_last());
    }
}

/// Every name the scan keeps is plain, and the current name has no `/`.
proof fn lemma_scan_plain(s: Seq<char>)
    ensures
        forall|i: int| 0 <= i < component_scan(s).0.len() ==> plain_name(#[trigger] component_scan(s).0[i]),
        !component_scan(s).1.contains('/'),
    decreases s.len(),
{
    if s.len() > 0 {
        lemma_scan_plain(s.drop_last());
        let st = component_scan(s.drop_last());
        let c = s.last();
        if c == '/' {
            lemma_apply_plain(st.0, st.1);
            assert(!Seq::<char>::empty().contains('/'));
        } else {
            assert(!st.1.push(c).contains('/')) by {
                if st.1.push(c).contains('/') {
                    let k = choose|k: int| 0 <= k < st.1.push(c).len() && st.1.push(c)[k] == '/';
                    if k < st.1.len() {
                        assert(st.1[k] == '/');
                    }
                }
            }
        }
    }
}

proof fn lemma_apply_plain(stack: Seq<Seq<char>>, name: Seq<char>)
    requires
        forall|i: int| 0 <= i < stack.len() ==> plain_name(#[trigger] stack[i]),
        !name.contains('/'),
    ensures
        forall|i: int| 0 <= i < apply_name(stack, name).len() ==> plain_name(#[trigger] apply_name(stack, name)[i]),
{
    let r = apply_name(stack, name);
    if !(name.len() == 0 || name == seq!['.']) && name != seq!['.', '.'] {
        assert forall|i: int| 0 <= i < r.len() implies plain_name(#[trigger] r[i]) by {
            if i < stack.len() {
                assert(r[i] == stack[i]);
            }
        }
    } else if name == seq!['.', '.'] && stack.len() > 0 {
        assert forall|i: int| 0 <= i < r.len() implies plain_name(#[trigger] r[i]) by {
            assert(r[i] == stack[i]);
        }
    }
}

/// Resolution of plain names joined by `/` gives those names back.
proof fn lemma_resolve_joined(prefix: Seq<char>, names: Seq<Seq<char>>)
    requires
        prefix == Seq::<char>::empty() || prefix == seq!['/'],
        forall|i: int| 0 <= i < names.len() ==> plain_name(#[trigger] names[i]),
    ensures
        resolved_names(prefix + join_names(names)) == names,
{
    lemma_scan_concat(prefix, join_names(names));
    let st0 = component_scan(prefix);
    if prefix == seq!['/'] {
        assert(prefix.drop_last() =~= Seq::<char>::empty());
        assert(prefix.last() == '/');
        assert(component_scan(Seq::<char>::empty()) == (Seq::<Seq<char>>::empty(), Seq::<char>::empty()));
        assert(apply_name(Seq::<Seq<char>>::empty(), Seq::<char>::empty()) == Seq::<Seq<char>>::empty());
        assert(st0 == (Seq::<Seq<char>>::empty(), Seq::<char>::empty()));
    } else {
        assert(st0 == (Seq::<Seq<char>>::empty(), Seq::<char>::empty()));
    }
    if names.len() == 0 {
        assert(prefix + join_names(names) =~= prefix);
        assert(names =~= Seq::<Seq<char>>::empty());
    } else {
        lemma_scan_joined(Seq::empty(), names);
        let last = names.last();
        assert(plain_name(last));
        assert(Seq::<Seq<char>>::empty() + names.drop_last() =~= names.drop_last());
        assert(names.drop_last().push(last) =~= names);
    }
}

/// Normalizing is idempotent: a path with `.` and `..` resolved resolves to
/// itself, so a stored track path is already in its unique form.
pub proof fn lemma_normalize_dots_idempotent(path: Seq<char>)
    ensures
        spec_normalize_dots(spec_normalize_dots(path)) == spec_normalize_dots(path),
{
    let names = resolved_names(path);
    let st = component_scan(path);
    lemma_scan_plain(path);
    lemma_apply_plain(st.0, st.1);
    let q = spec_normalize_dots(path);
    if path.len() > 0 && path[0] == '/' {
        lemma_resolve_joined(seq!['/'], names);
        assert(q == seq!['/'] + join_names(names));
        assert(q[0] == '/');
    } else {
        lemma_resolve_joined(Seq::empty(), names);
        assert(Seq::<char>::empty() + join_names(names) =~= join_names(names));
        assert(q == join_names(names));
        if q.len() > 0 {
            lemma_join_starts_plain(names);
        }
    }
}

proof fn lemma_join_starts_plain(names: Seq<Seq<char>>)
    requires
        forall|i: int| 0 <= i < names.len() ==> plain_name(#[trigger] names[i]),
        join_names(names).len() > 0,
    ensures
        join_names(names)[0] != '/',
    decreases names.len(),
{
    if names.len() == 1 {
        assert(plain_name(names[0]));
        assert(names[0][0] != '/') by {
            if names[0][0] == '/' {
                assert(names[0].contains('/'));
            }
        }
    } else {
        let front = names.drop_last();
        assert forall|i: int| 0 <= i < front.len() implies plain_name(#[trigger] front[i]) by {
            assert(front[i] == names[i]);
        }
        assert(plain_name(front[0]));
        assert(join_names(front).len() > 0) by {
            lemma_join_nonempty(front);
        }
        lemma_join_starts_plain(front);
        assert(join_names(names)[0] == join_names(front)[0]);
    }
}

proof fn lemma_join_nonempty(names: Seq<Seq<char>>)
    requires
        names.len() > 0,
        forall|i: int| 0 <= i < names.len() ==> plain_name(#[trigger] names[i]),
    ensures
        join_names(names).len() > 0,
    decreases names.len(),
{
    if names.len() > 1 {
        let front = names.drop_last();
        assert forall|i: int| 0 <= i < front.len() implies plain_name(#[trigger] front[i]) by {
            assert(front[i] == names[i]);
        }
        lemma_join_nonempty(front);
    } else {
        assert(plain_name(names[0]));
    }
}

/// A path made absolute is its own absolute form: normalizing a stored
/// absolute track path again, from any working directory, changes nothing.
pub proof fn lemma_absolute_path_stable(path: Seq<char>, cwd: Seq<char>, later_cwd: Seq<char>)
    requires
        spec_absolute_path(path, cwd).len() > 0 && spec_absolute_path(path, cwd)[0] == '/',
    ensures
        spec_absolute_path(spec_absolute_path(path, cwd), later_cwd) == spec_absolute_path(path, cwd),
{
    if path.len() > 0 && path[0] == '/' {
        lemma_normalize_dots_idempotent(path);
    } else {
        lemma_normalize_dots_idempotent(spec_join(cwd, path));
    }
}

/// An absolute path stays absolute when normalized.
pub proof fn lemma_absolute_of_absolute(path: Seq<char>, cwd: Seq<char>)
    requires
        path.len() > 0 && path[0] == '/',
    ensures
        spec_absolute_path(path, cwd)[0] == '/',
{
}

/// Whether `r` is an absolute path free of `.` and `..`: `/` followed by
/// plain names joined by `/`.
pub open spec fn dot_free_absolute(r: Seq<char>) -> bool {
    exists|names: Seq<Seq<char>>|
        (forall|i: int| 0 <= i < names.len() ==> plain_name(#[trigger] names[i]))
            && r == seq!['/'] + join_names(names)
}

/// Made absolute against a working directory (which is itself absolute),
/// any path, relative or absolute, becomes a non-empty absolute path without
/// `.` or `..` components.
pub proof fn lemma_absolute_path_is_dot_free(path: Seq<char>, cwd: Seq<char>)
    requires
        cwd.len() > 0 && cwd[0] == '/',
    ensures
        spec_absolute_path(path, cwd).len() > 0,
        spec_absolute_path(path, cwd)[0] == '/',
        dot_free_absolute(spec_absolute_path(path, cwd)),
{
    let x = if path.len() > 0 && path[0] == '/' { path } else { spec_join(cwd, path) };
    assert(x.len() > 0 && x[0] == '/') by {
        if !(path.len() > 0 && path[0] == '/') {
            if cwd.last() == '/' {
                assert((cwd + path)[0] == cwd[0]);
            } else {
                assert((cwd + seq!['/'] + path)[0] == cwd[0]);
            }
        }
    }
    assert(spec_absolute_path(path, cwd) == spec_normalize_dots(x));
    let st = component_scan(x);
    lemma_scan_plain(x);
    lemma_apply_plain(st.0, st.1);
    let names = resolved_names(x);
    assert(spec_normalize_dots(x) == seq!['/'] + join_names(names));
    assert((seq!['/'] + join_names(names))[0] == '/');
}

/// Without a canonical form from the file system, the unique form of any
/// track path, relative or absolute, taken against an absolute working
/// directory is a non-empty absolute path without `.` or `..` components,
/// and the same inputs always give the same form.
pub proof fn lemma_normalized_text_is_dot_free(
    path: Seq<char>,
    home: Option<Seq<char>>,
    cwd: Seq<char>,
)
    requires
        cwd.len() > 0 && cwd[0] == '/',
    ensures
        spec_normalized_text(path, home, cwd, None).len() > 0,
        spec_normalized_text(path, home, cwd, None)[0] == '/',
        dot_free_absolute(spec_normalized_text(path, home, cwd, None)),
{
    lemma_absolute_path_is_dot_free(spec_expand_user(path, home), cwd);
}

} // verus!
