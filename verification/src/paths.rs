//! Paths to files, seen from a directory.

use vstd::prelude::*;
use vstd::string::*;

verus! {

/// How the paths of the machine are written.
#[derive(Debug, Clone, Copy, PartialEq, Eq, Structural)]
pub enum PathStyle {
    /// Components are separated by slashes alone, and a path that starts with a
    /// slash is absolute, as on Unix.
    Slash,
    /// However the machine that the library runs on has it, drive letters and
    /// backslashes among them.
    Native,
}

/// Whether `path` starts at the root of the file system, where components are
/// separated by slashes.
pub open spec fn is_absolute(path: Seq<char>) -> bool {
    path.len() > 0 && path[0] == '/'
}

/// `path` seen from `root`, where components are separated by slashes: an
/// absolute path stands for itself, any other is put behind `root`, with a slash
/// between them unless `root` is empty or ends with one.
pub open spec fn joined(root: Seq<char>, path: Seq<char>) -> Seq<char> {
    if is_absolute(path) {
        path
    } else if root.len() == 0 || root.last() == '/' {
        root + path
    } else {
        root.push('/') + path
    }
}

/// `std::path::Path::join`, on two texts. What it answers depends on the machine:
/// which paths are absolute, and what separates components. Nothing is claimed of
/// it.
#[verifier::external_body]
fn native_join(root: &str, path: &str) -> (r: String) {
    std::path::Path::new(root).join(path).to_string_lossy().into_owned()
}

/// Whether `r` is an answer of the machine about `path` seen from `root`.
pub closed spec fn native_joined(root: Seq<char>, path: Seq<char>, r: Seq<char>) -> bool {
    exists|from: &str, to: &str, answer: String|
        {
            &&& #[trigger] call_ensures(native_join, (from, to), answer)
            &&& from@ == root
            &&& to@ == path
            &&& answer@ == r
        }
}

/// Whether `r` is `path` seen from `root`.
pub open spec fn seen_from(
    style: PathStyle,
    root: Seq<char>,
    path: Seq<char>,
    r: Seq<char>,
) -> bool {
    match style {
        PathStyle::Slash => r == joined(root, path),
        PathStyle::Native => native_joined(root, path, r),
    }
}

/// Computes `path` seen from `root`.
pub(crate) fn join_path(style: PathStyle, root: &str, path: &str) -> (r: String)
    ensures
        seen_from(style, root@, path@, r@),
{
    match style {
        PathStyle::Slash => join_with_slash(root, path),
        PathStyle::Native => native_join(root, path),
    }
}

/// Computes `path` seen from `root`, where components are separated by slashes.
fn join_with_slash(root: &str, path: &str) -> (r: String)
    ensures
        r@ == joined(root@, path@),
{
    if path.unicode_len() > 0 && path.get_char(0) == '/' {
        return path.to_owned();
    }
    let mut r = root.to_owned();
    let n: usize = root.unicode_len();
    if n > 0 && root.get_char(n - 1) != '/' {
        proof {
            reveal_strlit("/");
        }
        r.append("/");
        assert(r@ =~= root@.push('/'));
    }
    r.append(path);
    r
}

/// Where paths are the machine's, what is answered is what the machine answers
/// about the same two texts.
proof fn native_paths_are_left_to_the_machine(root: &str, path: &str, r: String)
    requires
        call_ensures(join_path, (PathStyle::Native, root, path), r),
    ensures
        exists|from: &str, to: &str, answer: String|
            {
                &&& #[trigger] call_ensures(native_join, (from, to), answer)
                &&& from@ == root@
                &&& to@ == path@
                &&& answer@ == r@
            },
{
}

/// Going to an absolute path does not depend on where one stands, and what is
/// reached from an absolute place is absolute.
pub proof fn joining_is_absolute(root: Seq<char>, path: Seq<char>)
    ensures
        is_absolute(path) ==> joined(root, path) == path,
        is_absolute(root) ==> is_absolute(joined(root, path)),
{
}

} // verus!
