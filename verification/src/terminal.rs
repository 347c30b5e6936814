//! Safe rendering of untrusted text written directly to a terminal.

use std::path::Path;
use vstd::prelude::*;

use crate::text::{chars_vec, string_from_chars};

verus! {

/// `std::path::Path`, carried through unchanged.
#[verifier::external_type_specification]
#[verifier::external_body]
pub struct ExPath(Path);

/// C0 and C1 control characters (U+0000..U+001F, U+007F..U+009F).
pub open spec fn c0_or_c1(c: char) -> bool {
    let n = c as u32;
    n <= 0x1F || (0x7F <= n && n <= 0x9F)
}

/// Bidirectional and line/paragraph separator controls.
pub open spec fn directional_or_line_control(c: char) -> bool {
    let n = c as u32;
    n == 0x061C || n == 0x200E || n == 0x200F || (0x2028 <= n && n <= 0x202E) || (0x2066 <= n
        && n <= 0x206F)
}

/// Upper-case hexadecimal digit for `d < 16`.
pub open spec fn hex_digit_upper(d: nat) -> char {
    if d < 10 {
        (('0' as u32) + d) as char
    } else {
        (('A' as u32) + (d - 10)) as char
    }
}

/// Exactly two upper-case hex digits of `n`.
pub open spec fn hex2(n: nat) -> Seq<char> {
    seq![hex_digit_upper((n / 16) % 16), hex_digit_upper(n % 16)]
}

/// Exactly four upper-case hex digits of `n`.
pub open spec fn hex4(n: nat) -> Seq<char> {
    seq![
        hex_digit_upper((n / 4096) % 16),
        hex_digit_upper((n / 256) % 16),
        hex_digit_upper((n / 16) % 16),
        hex_digit_upper(n % 16),
    ]
}

/// How one character is written: line breaks and tabs as `\n`, `\r`, `\t`;
/// other C0/C1 controls as `\xHH`; directional controls as `\u{HHHH}`; any
/// other character as itself.
pub open spec fn escape_char(c: char) -> Seq<char> {
    if c == '\n' {
        seq!['\\', 'n']
    } else if c == '\r' {
        seq!['\\', 'r']
    } else if c == '\t' {
        seq!['\\', 't']
    } else if c0_or_c1(c) {
        seq!['\\', 'x'] + hex2(c as nat)
    } else if directional_or_line_control(c) {
        seq!['\\', 'u', '{'] + hex4(c as nat) + seq!['}']
    } else {
        seq![c]
    }
}

/// The terminal-safe rendering of a character sequence.
pub open spec fn spec_terminal_safe(s: Seq<char>) -> Seq<char>
    decreases s.len(),
{
    if s.len() == 0 {
        Seq::empty()
    } else {
        spec_terminal_safe(s.drop_last()) + escape_char(s.last())
    }
}

/// No character of `s` can drive the terminal or reorder text.
pub open spec fn free_of_terminal_controls(s: Seq<char>) -> bool {
    forall|i: int| 0 <= i < s.len() ==> !c0_or_c1(#[trigger] s[i])
        && !directional_or_line_control(s[i])
}

/// Whether `c` is a C0 or C1 control character.
pub fn is_c0_or_c1(c: char) -> (r: bool)
    ensures
        r == c0_or_c1(c),
{
    let n = c as u32;
    n <= 0x1F || (0x7F <= n && n <= 0x9F)
}

/// Whether `c` is a bidirectional or line/paragraph separator control.
pub fn is_directional_or_line_control(c: char) -> (r: bool)
    ensures
        r == directional_or_line_control(c),
{
    let n = c as u32;
    n == 0x061C || n == 0x200E || n == 0x200F || (0x2028 <= n && n <= 0x202E) || (0x2066 <= n
        && n <= 0x206F)
}

fn hex_digit(d: u32) -> (c: char)
    requires
        d < 16,
    ensures
        c == hex_digit_upper(d as nat),
{
    if d < 10 {
        let b = (48 + d) as u8;
        b as char
    } else {
        let b = (55 + d) as u8;
        b as char
    }
}

fn push_escape(out: &mut Vec<char>, c: char)
    ensures
        final(out)@ == old(out)@ + escape_char(c),
{
    let n = c as u32;
    if c == '\n' {
        out.push('\\');
        out.push('n');
    } else if c == '\r' {
        out.push('\\');
        out.push('r');
    } else if c == '\t' {
        out.push('\\');
        out.push('t');
    } else if is_c0_or_c1(c) {
        out.push('\\');
        out.push('x');
        out.push(hex_digit((n / 16) % 16));
        out.push(hex_digit(n % 16));
    } else if is_directional_or_line_control(c) {
        out.push('\\');
        out.push('u');
        out.push('{');
        out.push(hex_digit((n / 4096) % 16));
        out.push(hex_digit((n / 256) % 16));
        out.push(hex_digit((n / 16) % 16));
        out.push(hex_digit(n % 16));
        out.push('}');
    } else {
        out.push(c);
    }
    assert(final(out)@ =~= old(out)@ + escape_char(c));
}

/// Escapes terminal controls and bidirectional text controls in untrusted
/// text, so that written output cannot drive the terminal.
pub fn terminal_safe(value: &str) -> (r: String)
    ensures
        r@ == spec_terminal_safe(value@),
        free_of_terminal_controls(r@),
{
    let chars = chars_vec(value);
    let mut out: Vec<char> = Vec::new();
    let mut i: usize = 0;
    while i < chars.len()
        invariant
            i <= chars.len(),
            chars@ == value@,
            out@ == spec_terminal_safe(chars@.take(i as int)),
        decreases chars.len() - i,
    {
        proof {
            assert(chars@.take(i + 1).drop_last() =~= chars@.take(i as int));
        }
        push_escape(&mut out, chars[i]);
        i += 1;
    }
    assert(chars@.take(chars.len() as int) =~= chars@);
    proof {
        lemma_terminal_safe_is_free(value@);
    }
    string_from_chars(&out)
}

/// The text of a path with every sequence that is not valid Unicode
/// replaced by U+FFFD (`Path::to_string_lossy`).
pub uninterp spec fn path_lossy_text(p: &Path) -> Seq<char>;

/// Lossy UTF-8 rendering of a path (`Path::to_string_lossy`): the path's
/// lossy text.
#[verifier::external_body]
fn path_to_string_lossy(path: &Path) -> (r: String)
    ensures
        r@ == path_lossy_text(path),
{
    path.to_string_lossy().into_owned()
}

/// Renders a path lossily and escapes any terminal-active characters in it.
pub fn terminal_safe_path(path: &Path) -> (r: String)
    ensures
        r@ == spec_terminal_safe(path_lossy_text(path)),
        free_of_terminal_controls(r@),
{
    let text = path_to_string_lossy(path);
    terminal_safe(text.as_str())
}

proof fn lemma_escape_char_is_free(c: char)
    ensures
        free_of_terminal_controls(escape_char(c)),
{
    let e = escape_char(c);
    assert forall|i: int| 0 <= i < e.len() implies !c0_or_c1(#[trigger] e[i])
        && !directional_or_line_control(e[i]) by {
        let n = c as nat;
        assert(hex_digit_upper((n / 4096) % 16) as u32 >= 0x30);
        assert(hex_digit_upper((n / 256) % 16) as u32 >= 0x30);
        assert(hex_digit_upper((n / 16) % 16) as u32 >= 0x30);
        assert(hex_digit_upper(n % 16) as u32 >= 0x30);
        assert(hex_digit_upper((n / 4096) % 16) as u32 <= 0x46);
        assert(hex_digit_upper((n / 256) % 16) as u32 <= 0x46);
        assert(hex_digit_upper((n / 16) % 16) as u32 <= 0x46);
        assert(hex_digit_upper(n % 16) as u32 <= 0x46);
    }
}

/// The escaped rendering never contains a C0/C1 control or a directional
/// control, whatever the input.
pub proof fn lemma_terminal_safe_is_free(s: Seq<char>)
    ensures
        free_of_terminal_controls(spec_terminal_safe(s)),
    decreases s.len(),
{
    if s.len() > 0 {
        lemma_terminal_safe_is_free(s.drop_last());
        lemma_escape_char_is_free(s.last());
        let a = spec_terminal_safe(s.drop_last());
        let b = escape_char(s.last());
        assert forall|i: int| 0 <= i < (a + b).len() implies !c0_or_c1(#[trigger] (a + b)[i])
            && !directional_or_line_control((a + b)[i]) by {
            if i < a.len() {
                assert((a + b)[i] == a[i]);
            } else {
                assert((a + b)[i] == b[i - a.len()]);
            }
        }
    }
}

/// Text without terminal controls is written unchanged.
pub proof fn lemma_terminal_safe_identity(s: Seq<char>)
    requires
        free_of_terminal_controls(s),
    ensures
        spec_terminal_safe(s) == s,
    decreases s.len(),
{
    if s.len() > 0 {
        let d = s.drop_last();
        assert(free_of_terminal_controls(d)) by {
            assert forall|i: int| 0 <= i < d.len() implies !c0_or_c1(#[trigger] d[i])
                && !directional_or_line_control(d[i]) by {
                assert(d[i] == s[i]);
            }
        }
        lemma_terminal_safe_identity(d);
        assert(!c0_or_c1(s[s.len() - 1]));
        assert(s =~= d + seq![s.last()]);
    }
}

} // verus!
