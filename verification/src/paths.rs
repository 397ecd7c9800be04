//! Safe path resolution and containment checking, applied before any
//! mutation touches the working tree or the index: glob patterns are
//! refused, paths touching the repository metadata directory are refused,
//! and a resolved path must be a descendant of the working-tree root.
//!
//! The caller resolves paths against the file system (absolute form,
//! canonicalization, symlink and existence probes) and hands the outcomes
//! in; every decision taken on them lives here.

use crate::strutil::{spec_starts_with, starts_with, str_eq};
use vstd::prelude::*;

verus! {

/// A glob metacharacter: `*`, `?`, `[` or `]`.
pub open spec fn spec_is_glob_char(c: char) -> bool {
    c == '*' || c == '?' || c == '[' || c == ']'
}

/// The string holds a glob metacharacter somewhere.
pub open spec fn spec_has_glob(s: Seq<char>) -> bool {
    exists|i: int| 0 <= i < s.len() && spec_is_glob_char(s[i])
}

/// Scan for glob metacharacters.
pub fn has_glob_chars(s: &str) -> (r: bool)
    ensures
        r == spec_has_glob(s@),
{
    let n = s.unicode_len();
    let mut k: usize = 0;
    while k < n
        invariant
            n == s@.len(),
            0 <= k <= n,
            forall|i: int| 0 <= i < k ==> !spec_is_glob_char(s@[i]),
        decreases n - k,
    {
        let c = s.get_char(k);
        if c == '*' || c == '?' || c == '[' || c == ']' {
            return true;
        }
        k = k + 1;
    }
    false
}

/// The characters of the repository metadata directory name.
pub open spec fn spec_git_dir_name() -> Seq<char> {
    seq!['.', 'g', 'i', 't']
}

/// Position `a` of the path starts a component equal to `.git`: it sits at
/// the start or right after a separator, spells `.git`, and ends at the end
/// or right before a separator.
pub open spec fn spec_git_component_at(s: Seq<char>, a: int) -> bool {
    &&& 0 <= a
    &&& a + 4 <= s.len()
    &&& (a == 0 || s[a - 1] == '/')
    &&& s.subrange(a, a + 4) == spec_git_dir_name()
    &&& (a + 4 == s.len() || s[a + 4] == '/')
}

/// The path holds a component equal to `.git`.
pub open spec fn spec_has_git_component(s: Seq<char>) -> bool {
    exists|a: int| spec_git_component_at(s, a)
}

/// Scan a path for a `.git` component.
pub fn has_git_component(s: &str) -> (r: bool)
    ensures
        r == spec_has_git_component(s@),
{
    let n = s.unicode_len();
    if n < 4 {
        proof {
            assert forall|a: int| !spec_git_component_at(s@, a) by {}
        }
        return false;
    }
    let mut a: usize = 0;
    while a <= n - 4
        invariant
            n == s@.len(),
            n >= 4,
            0 <= a <= n,
            forall|i: int| 0 <= i < a ==> !spec_git_component_at(s@, i),
        decreases n - a,
    {
        let boundary_before = a == 0 || s.get_char(a - 1) == '/';
        if boundary_before && s.get_char(a) == '.' && s.get_char(a + 1) == 'g' && s.get_char(a + 2)
            == 'i' && s.get_char(a + 3) == 't' {
            let boundary_after = a + 4 == n || s.get_char(a + 4) == '/';
            if boundary_after {
                proof {
                    assert(s@.subrange(a as int, a + 4) =~= spec_git_dir_name());
                    assert(spec_git_component_at(s@, a as int));
                }
                return true;
            }
        }
        proof {
            if spec_git_component_at(s@, a as int) {
                assert(s@.subrange(a as int, a + 4)[0] == s@[a as int]);
                assert(s@.subrange(a as int, a + 4)[1] == s@[a + 1]);
                assert(s@.subrange(a as int, a + 4)[2] == s@[a + 2]);
                assert(s@.subrange(a as int, a + 4)[3] == s@[a + 3]);
            }
        }
        a = a + 1;
    }
    proof {
        assert forall|i: int| !spec_git_component_at(s@, i) by {
            if i < a {
            } else if spec_git_component_at(s@, i) {
                assert(i + 4 <= n);
            }
        }
    }
    false
}

/// The workdir-relative form of `path` under `root`, when `path` is `root`
/// itself or a descendant of it: the root's own path, then a separator,
/// then the relative part. Both are canonical absolute paths.
pub open spec fn spec_strip_root(path: Seq<char>, root: Seq<char>) -> Option<Seq<char>> {
    if path == root {
        Option::Some(Seq::empty())
    } else {
        let pre = if root.len() > 0 && root[root.len() - 1] == '/' {
            root
        } else {
            root.push('/')
        };
        if spec_starts_with(path, pre) {
            Option::Some(path.skip(pre.len() as int))
        } else {
            Option::None
        }
    }
}

/// Strip the working-tree root off a canonical absolute path, or refuse a
/// path that is not contained in it.
pub fn strip_root(path: &str, root: &str) -> (r: Option<String>)
    ensures
        r is Some <==> spec_strip_root(path@, root@) is Some,
        r matches Some(s) ==> Option::Some(s@) == spec_strip_root(path@, root@),
{
    if str_eq(path, root) {
        return Some(String::new());
    }
    let rl = root.unicode_len();
    let root_slashed = rl > 0 && root.get_char(rl - 1) == '/';
    let mut pre = String::from_str(root);
    if !root_slashed {
        pre.append("/");
        proof {
            reveal_strlit("/");
            assert("/"@ =~= seq!['/']);
            assert(root@ + seq!['/'] =~= root@.push('/'));
        }
    }
    if starts_with(path, pre.as_str()) {
        let rel = path.substring_char(pre.unicode_len(), path.unicode_len());
        proof {
            assert(rel@ =~= path@.skip(pre@.len() as int));
        }
        Some(String::from_str(rel))
    } else {
        None
    }
}

/// Why a path offered for staging was refused.
#[derive(Clone, Copy, Debug, PartialEq, Eq, Structural)]
pub enum StagePathError {
    /// The path touches the repository metadata directory.
    Metadata,
    /// The path could not be resolved on disk.
    Unresolvable,
    /// The resolved path is not a descendant of the working tree.
    OutsideRepo,
}

impl StagePathError {
    /// The diagnostic for this refusal.
    pub fn message(&self) -> (r: String)
        ensures
            *self == StagePathError::Metadata ==> r@ == "Access denied: Path is inside .git directory."@,
            *self == StagePathError::Unresolvable ==> r@ == "Failed to resolve path"@,
            *self == StagePathError::OutsideRepo ==> r@
                == "Path is outside of repository working directory"@,
    {
        match self {
            StagePathError::Metadata => String::from_str(
                "Access denied: Path is inside .git directory.",
            ),
            StagePathError::Unresolvable => String::from_str("Failed to resolve path"),
            StagePathError::OutsideRepo => String::from_str(
                "Path is outside of repository working directory",
            ),
        }
    }
}

/// Decide whether one path may be staged, and under which workdir-relative
/// name. `abs` is the absolute form of the argument; `canonical` is the
/// outcome of canonicalizing it (`None` when resolution failed); `root` is
/// the canonical working-tree root. Checked in order: a path touching the
/// metadata directory is refused, an unresolvable path is refused, and a
/// resolved path outside the working tree is refused — and a refused path
/// stages nothing, so the index is unchanged by it.
pub fn resolve_stage_path(abs: &str, canonical: &Option<String>, root: &str) -> (r: Result<
    String,
    StagePathError,
>)
    ensures
        spec_has_git_component(abs@) <==> r == Err::<String, StagePathError>(
            StagePathError::Metadata,
        ),
        (!spec_has_git_component(abs@) && *canonical is None) <==> r == Err::<
            String,
            StagePathError,
        >(StagePathError::Unresolvable),
        (!spec_has_git_component(abs@) && (*canonical matches Some(c) && spec_strip_root(c@, root@)
            is None)) <==> r == Err::<String, StagePathError>(StagePathError::OutsideRepo),
        r matches Ok(rel) ==> (*canonical matches Some(c) && Option::Some(rel@) == spec_strip_root(
            c@,
            root@,
        )),
{
    if has_git_component(abs) {
        return Err(StagePathError::Metadata);
    }
    match canonical {
        None => Err(StagePathError::Unresolvable),
        Some(c) => match strip_root(c.as_str(), root) {
            None => Err(StagePathError::OutsideRepo),
            Some(rel) => Ok(rel),
        },
    }
}

/// The file-system facts about the one path handed to the removal applet,
/// gathered by the caller before any decision is taken.
pub struct RemovalFacts {
    /// The argument as given.
    pub given: String,
    /// Its absolute form.
    pub abs: String,
    /// Whether the absolute path names a symbolic link itself.
    pub is_symlink: bool,
    /// The canonicalized absolute path, when resolution succeeded.
    pub canonical: Option<String>,
    /// Whether the resolved path exists on disk.
    pub exists: bool,
    /// Whether the resolved path is a directory.
    pub is_dir: bool,
    /// Whether the index holds an entry at the relative path.
    pub in_index_file: bool,
    /// Whether the index holds entries under the relative path as a prefix.
    pub in_index_dir: bool,
}

/// What the removal applet is to do. Only the three `Delete`/`Remove`
/// variants touch anything; every refusal and `NoMatch` leaves both the
/// working tree and the index unchanged.
pub enum RemovalPlan {
    /// The argument holds a glob metacharacter: refuse it, delete nothing.
    RejectGlob,
    /// The path touches the repository metadata directory: refuse it.
    RejectMetadata,
    /// The path is a symbolic link: skip it, so the link target survives.
    SkipSymlink,
    /// The resolved path is not a descendant of the working tree.
    OutsideRepo,
    /// Delete the directory from disk and drop its entries from the index.
    DeleteDirAndIndex { rel: String },
    /// Delete the file from disk and drop its entry from the index.
    DeleteFileAndIndex { rel: String },
    /// Nothing on disk: drop the matching index entry and/or prefix.
    RemoveIndexEntries { rel: String, file: bool, dir: bool },
    /// Nothing on disk and nothing in the index.
    NoMatch { rel: String },
}

/// The path the removal decisions are taken on: the canonical form when
/// resolution succeeded, the absolute form otherwise, so that an
/// already-deleted path can still be looked up in the index.
pub open spec fn spec_effective_path(f: RemovalFacts) -> Seq<char> {
    match f.canonical {
        Option::Some(c) => c@,
        Option::None => f.abs@,
    }
}

/// Decide what a removal invocation does. Checked in order: glob patterns
/// are refused, paths touching the metadata directory are refused, symbolic
/// links are skipped, paths outside the working tree are refused — each of
/// these plans no deletion and no index change. A contained path is deleted
/// from disk and mirrored out of the index when present, falls back to
/// index-only removal when absent from disk, and reports no match when
/// neither holds it.
pub fn plan_removal(facts: &RemovalFacts, root: &str) -> (r: RemovalPlan)
    ensures
        spec_has_glob(facts.given@) <==> r is RejectGlob,
        (!spec_has_glob(facts.given@) && spec_has_git_component(facts.abs@)) <==> r
            is RejectMetadata,
        (!spec_has_glob(facts.given@) && !spec_has_git_component(facts.abs@) && facts.is_symlink)
            <==> r is SkipSymlink,
        (!spec_has_glob(facts.given@) && !spec_has_git_component(facts.abs@) && !facts.is_symlink
            && spec_strip_root(spec_effective_path(*facts), root@) is None) <==> r is OutsideRepo,
        r matches RemovalPlan::DeleteDirAndIndex { rel } ==> facts.exists && facts.is_dir
            && Option::Some(rel@) == spec_strip_root(spec_effective_path(*facts), root@),
        r matches RemovalPlan::DeleteFileAndIndex { rel } ==> facts.exists && !facts.is_dir
            && Option::Some(rel@) == spec_strip_root(spec_effective_path(*facts), root@),
        r matches RemovalPlan::RemoveIndexEntries { rel, file, dir } ==> !facts.exists && (file
            || dir) && file == facts.in_index_file && dir == facts.in_index_dir && Option::Some(
            rel@,
        ) == spec_strip_root(spec_effective_path(*facts), root@),
        r matches RemovalPlan::NoMatch { rel } ==> !facts.exists && !facts.in_index_file
            && !facts.in_index_dir && Option::Some(rel@) == spec_strip_root(
            spec_effective_path(*facts),
            root@,
        ),
{
    if has_glob_chars(facts.given.as_str()) {
        return RemovalPlan::RejectGlob;
    }
    if has_git_component(facts.abs.as_str()) {
        return RemovalPlan::RejectMetadata;
    }
    if facts.is_symlink {
        return RemovalPlan::SkipSymlink;
    }
    let stripped = match &facts.canonical {
        Some(c) => strip_root(c.as_str(), root),
        None => strip_root(facts.abs.as_str(), root),
    };
    let rel = match stripped {
        Some(rel) => rel,
        None => {
            return RemovalPlan::OutsideRepo;
        },
    };
    if facts.exists {
        if facts.is_dir {
            RemovalPlan::DeleteDirAndIndex { rel }
        } else {
            RemovalPlan::DeleteFileAndIndex { rel }
        }
    } else if facts.in_index_file || facts.in_index_dir {
        RemovalPlan::RemoveIndexEntries {
            rel,
            file: facts.in_index_file,
            dir: facts.in_index_dir,
        }
    } else {
        RemovalPlan::NoMatch { rel }
    }
}

} // verus!
