//! The flat staged-entries table: an ordered sequence of path/blob pairs,
//! each carrying a merge stage, from which the next commit's tree is built.
//!
//! Committing requires every entry to sit at the unconflicted stage; any
//! other stage signals an unresolved merge conflict and aborts synthesis.

use crate::tree::{spec_entries_view, FlatEntry, SpecFlatEntry, TreeEntryKind, TreeError};
use vstd::prelude::*;

verus! {

/// The merge stage of an index entry. Only `Unconflicted` entries may be
/// committed; the other three stages record the sides of an unresolved merge.
#[derive(Clone, Copy, Debug, PartialEq, Eq, Structural)]
pub enum Stage {
    Unconflicted,
    Base,
    Ours,
    Theirs,
}

/// The file mode recorded for an index entry. `Other` stands for any mode
/// the tree model does not place into a tree (such as a sparse directory),
/// which synthesis skips.
#[derive(Clone, Copy, Debug, PartialEq, Eq, Structural)]
pub enum EntryMode {
    Regular,
    Executable,
    Symlink,
    Gitlink,
    Other,
}

/// One staged path: a repository-relative path, the blob (or submodule
/// commit) it points at, its mode, its merge stage, and whether it has been
/// tombstoned for removal without being purged from the table yet.
pub struct IndexEntry {
    pub path: Vec<u8>,
    pub mode: EntryMode,
    pub id: Vec<u8>,
    pub stage: Stage,
    pub remove: bool,
}

/// Some entry sits at a non-unconflicted stage.
pub open spec fn spec_has_conflict(entries: Seq<IndexEntry>) -> bool {
    exists|i: int| 0 <= i < entries.len() && entries[i].stage != Stage::Unconflicted
}

/// An entry takes part in tree synthesis: it is not tombstoned and its mode
/// maps to a tree entry kind.
pub open spec fn spec_kept(e: IndexEntry) -> bool {
    !e.remove && e.mode != EntryMode::Other
}

/// The tree entry kind an index mode maps to. (`Other` never reaches
/// synthesis — kept entries exclude it — so its image is immaterial.)
pub open spec fn spec_kind_of_mode(m: EntryMode) -> TreeEntryKind {
    match m {
        EntryMode::Regular => TreeEntryKind::Blob,
        EntryMode::Executable => TreeEntryKind::BlobExecutable,
        EntryMode::Symlink => TreeEntryKind::Link,
        EntryMode::Gitlink => TreeEntryKind::Commit,
        EntryMode::Other => TreeEntryKind::Blob,
    }
}

/// The flat tree input an index entry becomes.
pub open spec fn spec_flat_of(e: IndexEntry) -> SpecFlatEntry {
    SpecFlatEntry { path: e.path@, kind: spec_kind_of_mode(e.mode), id: e.id@ }
}

/// The kept entries of the index, in order, as flat tree inputs.
pub open spec fn spec_flatten(entries: Seq<IndexEntry>) -> Seq<SpecFlatEntry>
    decreases entries.len(),
{
    if entries.len() == 0 {
        Seq::empty()
    } else {
        let rest = spec_flatten(entries.drop_last());
        if spec_kept(entries.last()) {
            rest.push(spec_flat_of(entries.last()))
        } else {
            rest
        }
    }
}

/// Check the index for conflicted entries and turn it into the flat, ordered
/// input of tree synthesis: tombstoned entries and entries of unsupported
/// modes are skipped, every other entry keeps its path and blob id and maps
/// its mode to a tree entry kind. Fails exactly when some entry sits at a
/// non-unconflicted stage; nothing is synthesized from a conflicted index.
pub fn prepare_entries(entries: &Vec<IndexEntry>) -> (r: Result<Vec<FlatEntry>, TreeError>)
    ensures
        r is Err <==> spec_has_conflict(entries@),
        r is Err ==> r == Err::<Vec<FlatEntry>, TreeError>(TreeError::Conflicted),
        r matches Ok(v) ==> spec_entries_view(v@) == spec_flatten(entries@),
{
    let n: usize = entries.len();
    let mut out: Vec<FlatEntry> = Vec::new();
    let mut k: usize = 0;
    while k < n
        invariant
            n == entries@.len(),
            0 <= k <= n,
            forall|i: int| 0 <= i < k ==> entries@[i].stage == Stage::Unconflicted,
            spec_entries_view(out@) == spec_flatten(entries@.take(k as int)),
        decreases n - k,
    {
        let e = &entries[k];
        match e.stage {
            Stage::Unconflicted => {},
            _ => {
                assert(entries@[k as int].stage != Stage::Unconflicted);
                return Err(TreeError::Conflicted);
            },
        }
        let keep = !e.remove && !matches!(e.mode, EntryMode::Other);
        if keep {
            let kind = match e.mode {
                EntryMode::Regular => TreeEntryKind::Blob,
                EntryMode::Executable => TreeEntryKind::BlobExecutable,
                EntryMode::Symlink => TreeEntryKind::Link,
                EntryMode::Gitlink => TreeEntryKind::Commit,
                EntryMode::Other => TreeEntryKind::Blob,
            };
            let flat = FlatEntry { path: clone_bytes(&e.path), kind, id: clone_bytes(&e.id) };
            proof {
                assert(flat@ =~= spec_flat_of(entries@[k as int]));
            }
            let ghost pre_out = out@;
            out.push(flat);
            proof {
                assert(spec_entries_view(out@) =~= spec_entries_view(pre_out).push(flat@));
            }
        }
        proof {
            assert(entries@.take(k + 1).drop_last() =~= entries@.take(k as int));
            assert(entries@.take(k + 1).last() == entries@[k as int]);
        }
        k = k + 1;
    }
    proof {
        assert(entries@.take(n as int) =~= entries@);
    }
    Ok(out)
}

/// Byte-for-byte equality of two byte vectors.
pub fn bytes_eq(a: &Vec<u8>, b: &Vec<u8>) -> (r: bool)
    ensures
        r == (a@ == b@),
{
    let n: usize = a.len();
    if n != b.len() {
        return false;
    }
    let mut k: usize = 0;
    while k < n
        invariant
            n == a@.len(),
            n == b@.len(),
            0 <= k <= n,
            forall|i: int| 0 <= i < k ==> a@[i] == b@[i],
        decreases n - k,
    {
        if a[k] != b[k] {
            return false;
        }
        k = k + 1;
    }
    proof {
        assert(a@ =~= b@);
    }
    true
}

/// Copy a byte vector.
pub fn clone_bytes(v: &Vec<u8>) -> (r: Vec<u8>)
    ensures
        r@ == v@,
{
    let n: usize = v.len();
    let mut out: Vec<u8> = Vec::new();
    let mut k: usize = 0;
    while k < n
        invariant
            n == v@.len(),
            0 <= k <= n,
            out@ == v@.take(k as int),
        decreases n - k,
    {
        out.push(v[k]);
        proof {
            assert(out@ =~= v@.take(k + 1));
        }
        k = k + 1;
    }
    proof {
        assert(v@.take(n as int) =~= v@);
    }
    out
}

} // verus!
