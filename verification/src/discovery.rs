//! Location of the decoder helper inside the player package, and the model of
//! paths that the library's path contracts speak of.

use std::path::{Path, PathBuf};
use vstd::prelude::*;
use vstd::utf8::encode_utf8;

verus! {

/// File name of the helper executable inside the package's `audio` folder.
pub const HELPER_FILE_NAME: &'static str = "tz-audio-decoder";

/// File name of the helper executable on Windows.
pub const HELPER_FILE_NAME_WINDOWS: &'static str = "tz-audio-decoder.exe";

/// The helper's file name on Windows or on other platforms.
pub fn helper_file_name(windows: bool) -> (r: &'static str)
    ensures
        r@ == (if windows { HELPER_FILE_NAME_WINDOWS@ } else { HELPER_FILE_NAME@ }),
{
    if windows { HELPER_FILE_NAME_WINDOWS } else { HELPER_FILE_NAME }
}

/// The bytes of `Contents`, the folder of an application bundle that holds
/// the executable's folder.
pub open spec fn contents_bytes() -> Seq<u8> {
    seq![67u8, 111u8, 110u8, 116u8, 101u8, 110u8, 116u8, 115u8]
}

/// One component of a path, as `Path::components` yields it; the texts are
/// the component's encoded bytes.
pub enum PathPart {
    Prefix(Seq<u8>),
    RootDir,
    CurDir,
    ParentDir,
    Normal(Seq<u8>),
}

/// The components of a borrowed path (`Path::components`).
pub uninterp spec fn path_parts(p: &Path) -> Seq<PathPart>;

/// The components of an owned path (`Path::components` of its `as_path`).
pub uninterp spec fn buf_parts(p: PathBuf) -> Seq<PathPart>;

/// The components of the path made from a text (`PathBuf::from`), as the
/// platform the library is built for parses it.
pub uninterp spec fn text_parts(text: Seq<char>) -> Seq<PathPart>;

/// Text that parses as exactly one normal component on every platform: not
/// empty, not `.` or `..`, and free of separators and drive colons.
pub open spec fn plain_component(text: Seq<char>) -> bool {
    &&& text.len() > 0
    &&& text != seq!['.']
    &&& text != seq!['.', '.']
    &&& forall|i: int| 0 <= i < text.len() ==> #[trigger] text[i] != '/' && text[i] != '\\' && text[i] != ':'
}

/// Whether the components include a root component.
pub open spec fn has_root_part(parts: Seq<PathPart>) -> bool {
    exists|i: int| 0 <= i < parts.len() && #[trigger] parts[i] is RootDir
}

/// Whether the components include a prefix (only on Windows).
pub open spec fn has_prefix_part(parts: Seq<PathPart>) -> bool {
    exists|i: int| 0 <= i < parts.len() && #[trigger] parts[i] is Prefix
}

/// Whether the components include `.` or `..`.
pub open spec fn has_dot_part(parts: Seq<PathPart>) -> bool {
    exists|i: int| 0 <= i < parts.len() && (#[trigger] parts[i] is CurDir || parts[i] is ParentDir)
}

/// Components onto which adjoining a plain component just appends it: those
/// without a prefix, or with a root component and no `.` or `..`. Under a
/// verbatim prefix `PathBuf::push` rebuilds the path, dropping `.` and `..`
/// and adding a separator after a bare prefix; those cases are left out.
pub open spec fn join_appends(parts: Seq<PathPart>) -> bool {
    ||| !has_prefix_part(parts)
    ||| has_root_part(parts) && !has_dot_part(parts)
}

/// The components after adjoining the plain component `name`.
pub open spec fn pushed(parts: Seq<PathPart>, name: Seq<char>) -> Seq<PathPart> {
    parts.push(PathPart::Normal(encode_utf8(name)))
}

/// Whether `child` is `base` with `name` adjoined, wherever adjoining appends.
pub open spec fn joined_under(child: PathBuf, base: PathBuf, name: Seq<char>) -> bool {
    join_appends(buf_parts(base)) ==> buf_parts(child) == pushed(buf_parts(base), name)
}

/// Whether a path with these components has a parent: it ends in a normal,
/// `.` or `..` component (not in a root or prefix, and is not empty).
pub open spec fn has_parent(parts: Seq<PathPart>) -> bool {
    parts.len() > 0 && !(parts.last() is RootDir) && !(parts.last() is Prefix)
}

/// The file name of a path with these components (`Path::file_name`): its
/// last component when that is a normal one.
pub open spec fn file_name_bytes(parts: Seq<PathPart>) -> Option<Seq<u8>> {
    if parts.len() > 0 && parts.last() is Normal {
        Some(parts.last()->Normal_0)
    } else {
        None
    }
}

/// The parent of an executable with these components, or `.` when it has
/// none.
pub open spec fn root_parts(exe: Seq<PathPart>) -> Seq<PathPart> {
    if has_parent(exe) { exe.drop_last() } else { seq![PathPart::CurDir] }
}

/// Whether an executable with these components sits in an application
/// bundle: its grandparent is a folder named `Contents`.
pub open spec fn in_bundle(exe: Seq<PathPart>) -> bool {
    &&& has_parent(exe)
    &&& has_parent(exe.drop_last())
    &&& file_name_bytes(exe.drop_last().drop_last()) == Some(contents_bytes())
}

/// Whether the bundle layout applies to an executable with these components
/// on a platform that uses bundles (`bundle_layout`).
pub open spec fn bundle_root_applies(exe: Seq<PathPart>, bundle_layout: bool) -> bool {
    bundle_layout && in_bundle(exe)
}

/// The folder the package root is taken from: the bundle's `Contents`
/// folder where the bundle layout applies, else the executable's parent (or
/// `.`).
pub open spec fn package_base(exe: Seq<PathPart>, bundle_layout: bool) -> Seq<PathPart> {
    if bundle_root_applies(exe, bundle_layout) { exe.drop_last().drop_last() } else { root_parts(exe) }
}

/// The package root: `Contents/Resources` in a bundle, else the base itself.
pub open spec fn package_root_parts(exe: Seq<PathPart>, bundle_layout: bool) -> Seq<PathPart> {
    if bundle_root_applies(exe, bundle_layout) {
        pushed(package_base(exe, bundle_layout), "Resources"@)
    } else {
        package_base(exe, bundle_layout)
    }
}

proof fn lemma_push_keeps_appending(parts: Seq<PathPart>, name: Seq<char>)
    requires
        join_appends(parts),
    ensures
        join_appends(pushed(parts, name)),
{
    let q = pushed(parts, name);
    assert(forall|i: int| 0 <= i < parts.len() ==> q[i] == parts[i]);
    if has_prefix_part(q) {
        let i = choose|i: int| 0 <= i < q.len() && q[i] is Prefix;
        assert(i < parts.len());
        assert(has_prefix_part(parts));
        let k = choose|k: int| 0 <= k < parts.len() && parts[k] is RootDir;
        assert(q[k] is RootDir);
        if has_dot_part(q) {
            let j = choose|j: int| 0 <= j < q.len() && (q[j] is CurDir || q[j] is ParentDir);
            assert(j < parts.len());
            assert(parts[j] == q[j]);
        }
    }
}

/// The parent of a path (`Path::parent`): none when the path ends in a root
/// or prefix or is empty; otherwise the path without its last component.
#[verifier::external_body]
fn path_parent(path: &Path) -> (r: Option<&Path>)
    ensures
        r is Some <==> has_parent(path_parts(path)),
        r matches Some(q) ==> path_parts(q) == path_parts(path).drop_last(),
{
    path.parent()
}

/// An owned copy of a path (`Path::to_path_buf`): the same components.
#[verifier::external_body]
fn path_to_buf(path: &Path) -> (r: PathBuf)
    ensures
        buf_parts(r) == path_parts(path),
{
    path.to_path_buf()
}

/// The bytes of a path's file name (`Path::file_name`, read with
/// `OsStr::as_encoded_bytes`): its last component when that is a normal one.
#[verifier::external_body]
fn path_file_name(path: &Path) -> (r: Option<Vec<u8>>)
    ensures
        r is Some <==> file_name_bytes(path_parts(path)) is Some,
        r matches Some(b) ==> file_name_bytes(path_parts(path)) == Some(b@),
{
    match path.file_name() {
        Some(name) => Some(name.as_encoded_bytes().to_vec()),
        None => None,
    }
}

/// A path made from text (`PathBuf::from`): `.` is the one current-directory
/// component, and a plain component is one normal component holding the
/// text's UTF-8 bytes. Of other texts, whose parsing depends on the
/// platform, nothing is said.
#[verifier::external_body]
pub(crate) fn path_from(text: &str) -> (r: PathBuf)
    ensures
        buf_parts(r) == text_parts(text@),
        text@ == seq!['.'] ==> buf_parts(r) == seq![PathPart::CurDir],
        plain_component(text@) ==> buf_parts(r) == seq![PathPart::Normal(encode_utf8(text@))],
{
    PathBuf::from(text)
}

/// `base` extended by one component (`Path::join`): a plain component is
/// appended to the components, except under a verbatim prefix, where `.` and
/// `..` are also dropped (there nothing is said).
#[verifier::external_body]
pub(crate) fn path_join(base: &Path, component: &str) -> (r: PathBuf)
    ensures
        plain_component(component@) && join_appends(path_parts(base)) ==> buf_parts(r) == pushed(
            path_parts(base),
            component@,
        ),
{
    base.join(component)
}

/// Borrows an owned path (`PathBuf::as_path`): the same components.
#[verifier::external_body]
pub(crate) fn path_view(path: &PathBuf) -> (r: &Path)
    ensures
        path_parts(r) == buf_parts(*path),
{
    path.as_path()
}

/// Whether `bytes` are those of `Contents`.
fn is_contents(bytes: &Vec<u8>) -> (r: bool)
    ensures
        r == (bytes@ == contents_bytes()),
{
    let want: [u8; 8] = [67, 111, 110, 116, 101, 110, 116, 115];
    assert(want@ =~= contents_bytes());
    if bytes.len() != 8 {
        return false;
    }
    let mut i: usize = 0;
    while i < 8
        invariant
            bytes.len() == 8,
            want@ == contents_bytes(),
            i <= 8,
            forall|j: int| 0 <= j < i ==> bytes@[j] == want@[j],
        decreases 8 - i,
    {
        if bytes[i] != want[i] {
            return false;
        }
        i += 1;
    }
    assert(bytes@ =~= want@);
    true
}

/// The package root: `Contents/Resources` when the executable sits in an
/// application bundle and the platform lays packages out as bundles
/// (`bundle_layout`); otherwise the directory holding the executable, or `.`
/// when the executable path has no parent.
pub fn package_root_path(executable: &Path, bundle_layout: bool) -> (r: PathBuf)
    ensures
        !bundle_root_applies(path_parts(executable), bundle_layout) ==> buf_parts(r) == root_parts(
            path_parts(executable),
        ),
        bundle_root_applies(path_parts(executable), bundle_layout) && join_appends(
            package_base(path_parts(executable), bundle_layout),
        ) ==> buf_parts(r) == package_root_parts(path_parts(executable), bundle_layout),
{
    let ghost exe = path_parts(executable);
    if bundle_layout {
        if let Some(parent) = path_parent(executable) {
            if let Some(contents) = path_parent(parent) {
                if let Some(name) = path_file_name(contents) {
                    if is_contents(&name) {
                        proof {
                            reveal_strlit("Resources");
                            assert("Resources"@ =~= seq!['R', 'e', 's', 'o', 'u', 'r', 'c', 'e', 's']);
                            assert(plain_component("Resources"@));
                        }
                        return path_join(contents, "Resources");
                    }
                }
            }
        }
    }
    match path_parent(executable) {
        Some(parent) => path_to_buf(parent),
        None => {
            proof {
                reveal_strlit(".");
                assert("."@ =~= seq!['.']);
            }
            path_from(".")
        },
    }
}

/// The helper executable: `audio/<helper_file_name>` under the package root.
pub fn package_helper_path(executable: &Path, helper_file_name: &str, bundle_layout: bool) -> (r: PathBuf)
    ensures
        plain_component(helper_file_name@) && join_appends(package_base(path_parts(executable), bundle_layout))
            ==> buf_parts(r) == pushed(
            pushed(package_root_parts(path_parts(executable), bundle_layout), "audio"@),
            helper_file_name@,
        ),
{
    let root = package_root_path(executable, bundle_layout);
    let audio = path_join(path_view(&root), "audio");
    proof {
        reveal_strlit("audio");
        reveal_strlit("Resources");
        let exe = path_parts(executable);
        let base = package_base(exe, bundle_layout);
        if join_appends(base) {
            if bundle_root_applies(exe, bundle_layout) {
                lemma_push_keeps_appending(base, "Resources"@);
            }
            lemma_push_keeps_appending(package_root_parts(exe, bundle_layout), "audio"@);
        }
        assert("audio"@ =~= seq!['a', 'u', 'd', 'i', 'o']);
        assert(plain_component("audio"@));
    }
    path_join(path_view(&audio), helper_file_name)
}

} // verus!
