//! Finding the root directory of a crate: the nearest directory, from a
//! starting one upwards, that holds a manifest.

use vstd::prelude::*;

verus! {

/// What `std::path::Path::parent` gives for a path: the path without its
/// final component, or `None` when there is no component to drop.
pub uninterp spec fn path_parent(path: Seq<char>) -> Option<Seq<char>>;

/// `std::path::Path::parent`, for a path written as text. The parent of a
/// path is the path without its final component, so its text is shorter.
#[verifier::external_body]
pub(crate) fn parent_path(path: &str) -> (r: Option<String>)
    ensures
        match r {
            None => path_parent(path@) is None,
            Some(p) => path_parent(path@) == Some(p@) && p@.len() < path@.len(),
        },
{
    match std::path::Path::new(path).parent() {
        Some(p) => Some(p.to_string_lossy().into_owned()),
        None => None,
    }
}

/// The `k`-th ancestor of `path`: `path` itself for 0, then the parent of
/// the one before; `None` past the root.
pub open spec fn ancestor(path: Seq<char>, k: nat) -> Option<Seq<char>>
    decreases k,
{
    if k == 0 {
        Some(path)
    } else {
        match ancestor(path, (k - 1) as nat) {
            Some(p) => path_parent(p),
            None => None,
        }
    }
}

/// The check `has_manifest` answered `answer` for the `k`-th ancestor of
/// `path`.
pub open spec fn answered<F: Fn(&str) -> bool>(has_manifest: F, path: Seq<char>, k: nat, answer: bool) -> bool {
    exists|s: &str| Some(s@) == ancestor(path, k) && #[trigger] has_manifest.ensures((s,), answer)
}

/// The nearest directory, from `path` upwards, for which `has_manifest`
/// holds: `path`, else its parent, and so on; `None` when no ancestor has
/// one.
pub fn find_crate_root_path<F: Fn(&str) -> bool>(path: String, has_manifest: F) -> (r: Option<String>)
    requires
        forall|s: &str| #[trigger] has_manifest.requires((s,)),
    ensures
        r matches Some(root) ==> exists|k: nat| {
            &&& ancestor(path@, k) == Some(root@)
            &&& answered(has_manifest, path@, k, true)
            &&& forall|j: nat| j < k ==> #[trigger] answered(has_manifest, path@, j, false)
        },
        r is None ==> exists|k: nat| {
            &&& ancestor(path@, k) is None
            &&& forall|j: nat| j < k ==> #[trigger] answered(has_manifest, path@, j, false)
        },
{
    let ghost start = path@;
    let mut cur = path;
    let ghost mut k: nat = 0;
    loop
        invariant
            forall|s: &str| #[trigger] has_manifest.requires((s,)),
            ancestor(start, k) == Some(cur@),
            start == path@,
            forall|j: nat| j < k ==> #[trigger] answered(has_manifest, start, j, false),
        decreases cur@.len(),
    {
        let found = has_manifest(cur.as_str());
        if found {
            return Some(cur);
        }
        match parent_path(cur.as_str()) {
            None => {
                assert(ancestor(start, k + 1) is None);
                return None;
            },
            Some(p) => {
                assert(ancestor(start, k + 1) == Some(p@));
                cur = p;
                proof {
                    k = k + 1;
                }
            },
        }
    }
}

} // verus!
