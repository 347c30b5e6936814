//! The decoder helper's check of the FFmpeg libraries it was linked to: the
//! loaded version must be the packaged one, and the build configuration must
//! enable none of the licence- or network-widening options.

use vstd::prelude::*;

use crate::fmt::extend_chars;
use crate::protocol::ExitCode;
use crate::text::{chars_vec, string_from_chars};

verus! {

/// `needle` occurs in `hay` at position `i`.
pub open spec fn occurs_at(hay: Seq<char>, needle: Seq<char>, i: int) -> bool {
    0 <= i && i + needle.len() <= hay.len() && hay.subrange(i, i + needle.len()) == needle
}

/// `needle` occurs somewhere in `hay` (`str::contains`).
pub open spec fn contains_text(hay: Seq<char>, needle: Seq<char>) -> bool {
    exists|i: int| occurs_at(hay, needle, i)
}

/// Configuration options the packaged FFmpeg must not be built with, in the
/// order they are checked.
pub open spec fn forbidden_options() -> Seq<Seq<char>> {
    seq!["--enable-gpl"@, "--enable-nonfree"@, "--enable-network"@, "--enable-protocols"@]
}

/// The first of `options[k..]` that the configuration enables.
pub open spec fn first_enabled(configuration: Seq<char>, options: Seq<Seq<char>>, k: int) -> Option<Seq<char>>
    decreases options.len() - k,
{
    if k < 0 || k >= options.len() {
        None
    } else if contains_text(configuration, options[k]) {
        Some(options[k])
    } else {
        first_enabled(configuration, options, k + 1)
    }
}

/// The verdict on the loaded libraries: a version other than the packaged
/// one, else the first forbidden option in the configuration, else none.
pub open spec fn spec_compatibility(expected: Seq<char>, actual: Seq<char>, configuration: Seq<char>) -> Option<Seq<char>> {
    if actual != expected {
        Some("packaged FFmpeg version mismatch: expected "@ + expected + ", loaded "@ + actual)
    } else {
        match first_enabled(configuration, forbidden_options(), 0) {
            Some(option) => Some("packaged FFmpeg has forbidden configuration: "@ + option),
            None => None,
        }
    }
}

/// Whether `needle` occurs in `hay`.
pub fn contains_chars(hay: &Vec<char>, needle: &Vec<char>) -> (r: bool)
    ensures
        r == contains_text(hay@, needle@),
{
    if needle.len() > hay.len() {
        assert(forall|i: int| !occurs_at(hay@, needle@, i));
        return false;
    }
    let last = hay.len() - needle.len();
    let mut i: usize = 0;
    while i <= last
        invariant
            last == hay.len() - needle.len(),
            needle.len() <= hay.len(),
            i <= last + 1,
            forall|j: int| 0 <= j < i ==> !occurs_at(hay@, needle@, j),
        decreases last + 1 - i,
    {
        let mut k: usize = 0;
        while k < needle.len() && hay[i + k] == needle[k]
            invariant
                k <= needle.len(),
                i <= last,
                last == hay.len() - needle.len(),
                forall|m: int| 0 <= m < k ==> hay@[i + m] == needle@[m],
            decreases needle.len() - k,
        {
            k += 1;
        }
        if k == needle.len() {
            assert(hay@.subrange(i as int, i + needle.len()) =~= needle@);
            assert(occurs_at(hay@, needle@, i as int));
            return true;
        }
        assert(hay@.subrange(i as int, i + needle.len())[k as int] != needle@[k as int]);
        i += 1;
    }
    assert forall|j: int| !occurs_at(hay@, needle@, j) by {
        if 0 <= j && j + needle.len() <= hay.len() {
            assert(j < i);
        }
    }
    false
}

/// Checks the loaded FFmpeg against the packaged build: the loaded version
/// must equal `expected`, and `configuration` must enable none of the
/// forbidden options (checked in order; the first found is reported).
pub fn library_compatibility(expected: &str, actual: &str, configuration: &str) -> (r: Result<(), (ExitCode, String)>)
    ensures
        match spec_compatibility(expected@, actual@, configuration@) {
            Some(m) => r matches Err((code, text)) && code == ExitCode::LibraryCompatibility && text@ == m,
            None => r is Ok,
        },
{
    let e = chars_vec(expected);
    let a = chars_vec(actual);
    if !crate::text::chars_eq(&e, &a) {
        let mut text = chars_vec("packaged FFmpeg version mismatch: expected ");
        extend_chars(&mut text, &e);
        extend_chars(&mut text, &chars_vec(", loaded "));
        extend_chars(&mut text, &a);
        return Err((ExitCode::LibraryCompatibility, string_from_chars(&text)));
    }
    let config = chars_vec(configuration);
    let options = vec![chars_vec("--enable-gpl"), chars_vec("--enable-nonfree"), chars_vec("--enable-network"), chars_vec("--enable-protocols")];
    let ghost names = forbidden_options();
    let mut k: usize = 0;
    while k < options.len()
        invariant
            k <= options.len(),
            options@.len() == 4,
            names == forbidden_options(),
            forall|j: int| 0 <= j < 4 ==> #[trigger] options@[j]@ == names[j],
            config@ == configuration@,
            expected@ == actual@,
            first_enabled(configuration@, names, 0) == first_enabled(configuration@, names, k as int),
        decreases options.len() - k,
    {
        assert(options@[k as int]@ == names[k as int]);
        if contains_chars(&config, &options[k]) {
            let mut text = chars_vec("packaged FFmpeg has forbidden configuration: ");
            extend_chars(&mut text, &options[k]);
            return Err((ExitCode::LibraryCompatibility, string_from_chars(&text)));
        }
        k += 1;
    }
    Ok(())
}

} // verus!
