//! Which files lie in the workspace roots, and which closed documents the
//! workspace keeps.
//!
//! Paths are absolute, `/`-separated and canonical, as the server holds its
//! roots (the framework's standard-stream transport runs on unix).

use vstd::prelude::*;

use crate::text_utils::strings::str_equal;
use crate::workspace::diagnostics::WorkspaceDiagnosticsState;

verus! {

/// Whether `path` lies in the directory `root`: `root` is a leading run of
/// whole components of `path`, or `path` itself.
pub open spec fn in_root(path: Seq<char>, root: Seq<char>) -> bool {
    &&& root.len() <= path.len()
    &&& path.take(root.len() as int) == root
    &&& path.len() == root.len() || (root.len() > 0 && root.last() == '/') || path[root.len() as int]
        == '/'
}

/// Whether `path` lies in one of `roots`.
pub open spec fn in_some_root(path: Seq<char>, roots: Seq<String>) -> bool {
    exists|i: int| 0 <= i < roots.len() && in_root(path, #[trigger] roots[i]@)
}

/// Whether `path` lies in the directory `root`.
pub fn path_is_in_root(path: &str, root: &str) -> (r: bool)
    ensures
        r == in_root(path@, root@),
{
    let path_len = path.unicode_len();
    let root_len = root.unicode_len();
    if root_len > path_len {
        return false;
    }
    let head = path.substring_char(0, root_len);
    if !str_equal(head, root) {
        return false;
    }
    if path_len == root_len {
        return true;
    }
    if root_len > 0 && root.get_char(root_len - 1) == '/' {
        return true;
    }
    path.get_char(root_len) == '/'
}

/// Whether `path` lies in one of `roots`.
pub fn path_is_in_roots(path: &str, roots: &[String]) -> (r: bool)
    ensures
        r == in_some_root(path@, roots@),
{
    let mut i: usize = 0;
    while i < roots.len()
        invariant
            0 <= i <= roots@.len(),
            forall|j: int| 0 <= j < i ==> !in_root(path@, #[trigger] roots@[j]@),
        decreases roots@.len() - i,
    {
        if path_is_in_root(path, roots[i].as_str()) {
            return true;
        }
        i = i + 1;
    }
    false
}

/// Whether a document the editor closes stays tracked as a workspace
/// document: workspace diagnostics are handled, the server claims the
/// document (`claimed`), and its file (`path`, none for a URL that names no
/// file) lies in one of the workspace roots.
pub fn close_keeps_workspace(
    diagnostics: &WorkspaceDiagnosticsState,
    claimed: bool,
    path: Option<&str>,
    roots: &[String],
) -> (r: bool)
    ensures
        r == (diagnostics@.supported && diagnostics@.enabled && claimed && match path {
            Some(path) => in_some_root(path@, roots@),
            None => false,
        }),
{
    if !diagnostics.enabled() || !claimed {
        return false;
    }
    match path {
        Some(path) => path_is_in_roots(path, roots),
        None => false,
    }
}

} // verus!
