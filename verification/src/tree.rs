//! Index-to-tree synthesis: folds the flat, sorted staged-entry table into a
//! hierarchical tree of git tree objects, one per directory level including
//! the repository root, serializing and content-addressing each level
//! bottom-up.
//!
//! The synthesizer keeps an explicit stack of open directory frames instead
//! of a pointer-linked builder: each frame owns the serialized payload of one
//! directory still being filled. Walking the entries in path order opens and
//! closes frames so that every directory is serialized in a single linear
//! pass; closing a frame hashes its payload and records the tree object to
//! be written.

use vstd::prelude::*;

verus! {

/// The byte that separates path components.
pub const SLASH: u8 = 47;

/// What a tree entry points at, mapped from the index entry's mode.
#[derive(Clone, Copy, Debug, PartialEq, Eq, Structural)]
pub enum TreeEntryKind {
    /// A plain file (mode `100644`).
    Blob,
    /// An executable file (mode `100755`).
    BlobExecutable,
    /// A symbolic link (mode `120000`).
    Link,
    /// A submodule commit (mode `160000`).
    Commit,
}

/// A failure of tree synthesis.
#[derive(Clone, Copy, Debug, PartialEq, Eq, Structural)]
pub enum TreeError {
    /// The index holds entries at a non-unconflicted stage.
    Conflicted,
    /// The object hasher refused the payload; nothing was planned.
    HashFailed,
}

/// One leaf for the synthesizer: a full repository-relative path, the kind
/// of object it names, and that object's id.
pub struct FlatEntry {
    pub path: Vec<u8>,
    pub kind: TreeEntryKind,
    pub id: Vec<u8>,
}

/// The mathematical content of a leaf: path bytes, kind, id bytes.
#[verifier::ext_equal]
pub ghost struct SpecFlatEntry {
    pub path: Seq<u8>,
    pub kind: TreeEntryKind,
    pub id: Seq<u8>,
}

impl View for FlatEntry {
    type V = SpecFlatEntry;

    open spec fn view(&self) -> SpecFlatEntry {
        SpecFlatEntry { path: self.path@, kind: self.kind, id: self.id@ }
    }
}

/// The views of an entry list.
pub open spec fn spec_entries_view(s: Seq<FlatEntry>) -> Seq<SpecFlatEntry> {
    Seq::new(s.len(), |i: int| s[i]@)
}

/// The kind tag of a git object, as named in its loose header.
#[derive(Clone, Copy, Debug, PartialEq, Eq, Structural)]
pub enum ObjectKind {
    Tree,
    Commit,
}

impl ObjectKind {
    /// The header name of this object kind: `tree` or `commit`.
    pub open spec fn name_bytes(&self) -> Seq<u8> {
        match self {
            ObjectKind::Tree => seq![116u8, 114u8, 101u8, 101u8],
            ObjectKind::Commit => seq![99u8, 111u8, 109u8, 109u8, 105u8, 116u8],
        }
    }
}

/// The content hash git assigns to an object of the given kind with the
/// given payload. Computed only by the object hasher; the same kind and
/// payload always map to the same id.
pub uninterp spec fn git_object_id(kind: Seq<u8>, data: Seq<u8>) -> Seq<u8>;

/// Whether the object hasher accepts an object of the given kind and
/// payload. Its collision detection reads nothing but the hashed bytes, so
/// acceptance is a function of the kind and payload alone; the same inputs
/// are accepted or refused alike on every run.
pub uninterp spec fn sha1_ok(kind: Seq<u8>, data: Seq<u8>) -> bool;

/// Relies on gix_object::compute_hash: the id of a git object is the hash of
/// its kind, its payload size and its payload bytes, a function of those
/// alone (SHA-1 under this build's object format, so ids are 20 bytes). The
/// hasher reports a failure instead of returning an id exactly when its
/// collision detection refuses the hashed bytes, which is itself a
/// deterministic function of those bytes.
#[verifier::external_body]
pub(crate) fn hash_object(kind: &ObjectKind, data: &Vec<u8>) -> (r: Option<Vec<u8>>)
    ensures
        r matches Some(id) ==> id@ == git_object_id(kind.name_bytes(), data@) && id@.len() == 20,
        r is Some <==> sha1_ok(kind.name_bytes(), data@),
{
    let k = match kind {
        ObjectKind::Tree => gix_object::Kind::Tree,
        ObjectKind::Commit => gix_object::Kind::Commit,
    };
    gix_object::compute_hash(Default::default(), k, data.as_slice())
        .ok()
        .map(|id| id.as_bytes().to_vec())
}

/// The serialized mode bytes of a leaf entry kind.
pub open spec fn spec_kind_mode_bytes(k: TreeEntryKind) -> Seq<u8> {
    match k {
        TreeEntryKind::Blob => seq![49u8, 48u8, 48u8, 54u8, 52u8, 52u8],
        TreeEntryKind::BlobExecutable => seq![49u8, 48u8, 48u8, 55u8, 53u8, 53u8],
        TreeEntryKind::Link => seq![49u8, 50u8, 48u8, 48u8, 48u8, 48u8],
        TreeEntryKind::Commit => seq![49u8, 54u8, 48u8, 48u8, 48u8, 48u8],
    }
}

/// The serialized mode bytes of a subtree entry (git writes `40000`, with no
/// leading zero, inside tree objects).
pub open spec fn spec_tree_mode_bytes() -> Seq<u8> {
    seq![52u8, 48u8, 48u8, 48u8, 48u8]
}

/// One serialized tree entry: mode, space, name, NUL, raw id bytes.
pub open spec fn spec_leaf_line(k: TreeEntryKind, name: Seq<u8>, id: Seq<u8>) -> Seq<u8> {
    spec_kind_mode_bytes(k) + seq![32u8] + name + seq![0u8] + id
}

/// One serialized subtree entry: `40000`, space, name, NUL, raw id bytes.
pub open spec fn spec_subtree_line(name: Seq<u8>, id: Seq<u8>) -> Seq<u8> {
    spec_tree_mode_bytes() + seq![32u8] + name + seq![0u8] + id
}

/// `a` is a prefix of `b`.
pub open spec fn spec_is_prefix(a: Seq<u8>, b: Seq<u8>) -> bool {
    a.len() <= b.len() && b.take(a.len() as int) == a
}

/// The end of the path component that starts at `k`: the position of the
/// next separator, or the end of the path.
pub open spec fn spec_comp_end(path: Seq<u8>, k: int) -> int
    decreases path.len() - k,
{
    if k < 0 {
        0
    } else if k >= path.len() {
        path.len() as int
    } else if path[k] == SLASH {
        k
    } else {
        spec_comp_end(path, k + 1)
    }
}

/// One open directory during synthesis: the directory's path prefix
/// (including its trailing separator; empty for the root), the name it will
/// carry in its parent, and the serialized entries collected so far.
#[verifier::ext_equal]
pub ghost struct SpecFrame {
    pub dir: Seq<u8>,
    pub name: Seq<u8>,
    pub payload: Seq<u8>,
}

/// The synthesizer state: the stack of open directories (root at the
/// bottom) and the tree objects already closed, each an id with its payload.
#[verifier::ext_equal]
pub ghost struct SpecBuilder {
    pub frames: Seq<SpecFrame>,
    pub writes: Seq<(Seq<u8>, Seq<u8>)>,
}

/// The initial state: one open root directory, nothing written.
pub open spec fn spec_init() -> SpecBuilder {
    SpecBuilder {
        frames: seq![
            SpecFrame { dir: Seq::empty(), name: Seq::empty(), payload: Seq::empty() },
        ],
        writes: Seq::empty(),
    }
}

/// Close the top directory: hash its payload, record the finished tree
/// object, and add a subtree entry for it to its parent.
pub open spec fn spec_close_top(st: SpecBuilder) -> SpecBuilder {
    let top = st.frames.last();
    let parent_idx = st.frames.len() - 2;
    let parent = st.frames[parent_idx];
    let id = git_object_id(ObjectKind::Tree.name_bytes(), top.payload);
    let parent2 = SpecFrame {
        dir: parent.dir,
        name: parent.name,
        payload: parent.payload + spec_subtree_line(top.name, id),
    };
    SpecBuilder {
        frames: st.frames.drop_last().update(parent_idx, parent2),
        writes: st.writes.push((id, top.payload)),
    }
}

/// Close directories until the top one is a prefix of `path` (the root, with
/// its empty prefix, always is).
pub open spec fn spec_pop_to_prefix(st: SpecBuilder, path: Seq<u8>) -> SpecBuilder
    decreases st.frames.len(),
{
    if st.frames.len() <= 1 {
        st
    } else if spec_is_prefix(st.frames.last().dir, path) {
        st
    } else {
        spec_pop_to_prefix(spec_close_top(st), path)
    }
}

/// Open one directory frame per path component of `path` below the current
/// top, so that only the final component (the leaf name) remains. `fuel`
/// bounds the walk; one unit per opened directory suffices.
pub open spec fn spec_open_dirs_rec(st: SpecBuilder, path: Seq<u8>, fuel: int) -> SpecBuilder
    decreases fuel,
{
    let d = st.frames.last().dir.len() as int;
    let ce = spec_comp_end(path, d);
    if fuel <= 0 {
        st
    } else if d > path.len() {
        st
    } else if ce >= path.len() {
        st
    } else {
        let nf = SpecFrame {
            dir: path.take(ce + 1),
            name: path.subrange(d, ce),
            payload: Seq::empty(),
        };
        spec_open_dirs_rec(
            SpecBuilder { frames: st.frames.push(nf), writes: st.writes },
            path,
            fuel - 1,
        )
    }
}

/// Open the directories of `path` below the current top.
pub open spec fn spec_open_dirs(st: SpecBuilder, path: Seq<u8>) -> SpecBuilder {
    spec_open_dirs_rec(st, path, path.len() as int)
}

/// Append the serialized leaf entry for `e` to the top directory's payload.
pub open spec fn spec_append_leaf(st: SpecBuilder, e: SpecFlatEntry) -> SpecBuilder {
    let top_idx = st.frames.len() - 1;
    let top = st.frames.last();
    let d = top.dir.len() as int;
    let name = if d <= e.path.len() {
        e.path.subrange(d, e.path.len() as int)
    } else {
        Seq::empty()
    };
    let top2 = SpecFrame {
        dir: top.dir,
        name: top.name,
        payload: top.payload + spec_leaf_line(e.kind, name, e.id),
    };
    SpecBuilder { frames: st.frames.update(top_idx, top2), writes: st.writes }
}

/// Process one entry: close the directories it has left, open the ones it
/// enters, and append its leaf line.
pub open spec fn spec_step(st: SpecBuilder, e: SpecFlatEntry) -> SpecBuilder {
    spec_append_leaf(spec_open_dirs(spec_pop_to_prefix(st, e.path), e.path), e)
}

/// Fold the whole entry sequence, in order, through the synthesizer.
pub open spec fn spec_fold(entries: Seq<SpecFlatEntry>) -> SpecBuilder
    decreases entries.len(),
{
    if entries.len() == 0 {
        spec_init()
    } else {
        spec_step(spec_fold(entries.drop_last()), entries.last())
    }
}

/// Close every remaining directory down to the root, then record the root
/// tree object itself. The root write comes last.
pub open spec fn spec_finalize(st: SpecBuilder) -> SpecBuilder
    decreases st.frames.len(),
{
    if st.frames.len() <= 1 {
        let payload = if st.frames.len() == 1 {
            st.frames[0].payload
        } else {
            Seq::empty()
        };
        SpecBuilder {
            frames: st.frames,
            writes: st.writes.push(
                (git_object_id(ObjectKind::Tree.name_bytes(), payload), payload),
            ),
        }
    } else {
        spec_finalize(spec_close_top(st))
    }
}

/// The tree objects a fixed entry sequence synthesizes (bottom-up, the root
/// tree last) and the root tree's id. A mathematical function of the entry
/// sequence alone: synthesis is deterministic.
pub open spec fn spec_synthesize(entries: Seq<SpecFlatEntry>) -> (Seq<(Seq<u8>, Seq<u8>)>, Seq<u8>) {
    let done = spec_finalize(spec_fold(entries));
    (done.writes, done.writes.last().0)
}

/// `a` is a prefix of `b`, element for element.
pub open spec fn spec_writes_prefix(a: Seq<(Seq<u8>, Seq<u8>)>, b: Seq<(Seq<u8>, Seq<u8>)>) -> bool {
    a.len() <= b.len() && b.take(a.len() as int) == a
}

/// Every planned tree payload is one the object hasher accepts; only then
/// can synthesis run to completion.
pub open spec fn spec_writes_ok(w: Seq<(Seq<u8>, Seq<u8>)>) -> bool {
    forall|i: int|
        0 <= i < w.len() ==> sha1_ok(ObjectKind::Tree.name_bytes(), #[trigger] w[i].1)
}

proof fn lemma_writes_prefix_trans(
    a: Seq<(Seq<u8>, Seq<u8>)>,
    b: Seq<(Seq<u8>, Seq<u8>)>,
    c: Seq<(Seq<u8>, Seq<u8>)>,
)
    requires
        spec_writes_prefix(a, b),
        spec_writes_prefix(b, c),
    ensures
        spec_writes_prefix(a, c),
{
    assert(c.take(b.len() as int).take(a.len() as int) =~= c.take(a.len() as int));
}

/// Closing directories only appends writes.
proof fn lemma_pop_writes_extends(st: SpecBuilder, path: Seq<u8>)
    ensures
        spec_writes_prefix(st.writes, spec_pop_to_prefix(st, path).writes),
    decreases st.frames.len(),
{
    if st.frames.len() <= 1 || spec_is_prefix(st.frames.last().dir, path) {
        assert(st.writes.take(st.writes.len() as int) =~= st.writes);
    } else {
        let st2 = spec_close_top(st);
        lemma_pop_writes_extends(st2, path);
        assert(st2.writes.take(st.writes.len() as int) =~= st.writes);
        lemma_writes_prefix_trans(st.writes, st2.writes, spec_pop_to_prefix(st, path).writes);
    }
}

/// Opening directories leaves the writes alone.
proof fn lemma_open_writes_same(st: SpecBuilder, path: Seq<u8>, fuel: int)
    ensures
        spec_open_dirs_rec(st, path, fuel).writes == st.writes,
    decreases fuel,
{
    let d = st.frames.last().dir.len() as int;
    let ce = spec_comp_end(path, d);
    if fuel <= 0 || d > path.len() || ce >= path.len() {
    } else {
        let nf = SpecFrame {
            dir: path.take(ce + 1),
            name: path.subrange(d, ce),
            payload: Seq::empty(),
        };
        lemma_open_writes_same(
            SpecBuilder { frames: st.frames.push(nf), writes: st.writes },
            path,
            fuel - 1,
        );
    }
}

/// One synthesis step only appends writes.
proof fn lemma_step_writes_extends(st: SpecBuilder, e: SpecFlatEntry)
    ensures
        spec_writes_prefix(st.writes, spec_step(st, e).writes),
        spec_step(st, e).writes == spec_pop_to_prefix(st, e.path).writes,
{
    lemma_pop_writes_extends(st, e.path);
    lemma_open_writes_same(spec_pop_to_prefix(st, e.path), e.path, e.path.len() as int);
}

/// Finalizing only appends writes.
proof fn lemma_finalize_writes_extends(st: SpecBuilder)
    ensures
        spec_writes_prefix(st.writes, spec_finalize(st).writes),
    decreases st.frames.len(),
{
    if st.frames.len() <= 1 {
        assert(spec_finalize(st).writes.take(st.writes.len() as int) =~= st.writes);
    } else {
        let st2 = spec_close_top(st);
        lemma_finalize_writes_extends(st2);
        assert(st2.writes.take(st.writes.len() as int) =~= st.writes);
        lemma_writes_prefix_trans(st.writes, st2.writes, spec_finalize(st).writes);
    }
}

/// The writes of a partial fold are a prefix of the writes of the whole
/// fold.
proof fn lemma_fold_take_extends(entries: Seq<SpecFlatEntry>, k: int)
    requires
        0 <= k <= entries.len(),
    ensures
        spec_writes_prefix(spec_fold(entries.take(k)).writes, spec_fold(entries).writes),
    decreases entries.len() - k,
{
    if k == entries.len() {
        assert(entries.take(k) =~= entries);
        let w = spec_fold(entries).writes;
        assert(w.take(w.len() as int) =~= w);
    } else {
        assert(entries.take(k + 1).drop_last() =~= entries.take(k));
        assert(entries.take(k + 1).last() == entries[k]);
        lemma_step_writes_extends(spec_fold(entries.take(k)), entries[k]);
        lemma_fold_take_extends(entries, k + 1);
        lemma_writes_prefix_trans(
            spec_fold(entries.take(k)).writes,
            spec_fold(entries.take(k + 1)).writes,
            spec_fold(entries).writes,
        );
    }
}

/// Tree synthesis is deterministic: two synthesis results pinned to the same
/// entry sequence are the same, object for object and id for id.
pub proof fn lemma_tree_synthesis_deterministic(
    entries: Seq<SpecFlatEntry>,
    r1: (Seq<(Seq<u8>, Seq<u8>)>, Seq<u8>),
    r2: (Seq<(Seq<u8>, Seq<u8>)>, Seq<u8>),
)
    requires
        r1 == spec_synthesize(entries),
        r2 == spec_synthesize(entries),
    ensures
        r1 == r2,
{
}

/// A finished tree object: its id and its serialized payload.
#[derive(Debug)]
pub struct TreeWrite {
    pub id: Vec<u8>,
    pub bytes: Vec<u8>,
}

impl View for TreeWrite {
    type V = (Seq<u8>, Seq<u8>);

    open spec fn view(&self) -> (Seq<u8>, Seq<u8>) {
        (self.id@, self.bytes@)
    }
}

/// The views of a write list.
pub open spec fn spec_writes_view(w: Seq<TreeWrite>) -> Seq<(Seq<u8>, Seq<u8>)> {
    Seq::new(w.len(), |i: int| w[i]@)
}

pub struct Frame {
    pub dir: Vec<u8>,
    pub name: Vec<u8>,
    pub payload: Vec<u8>,
}

impl View for Frame {
    type V = SpecFrame;

    open spec fn view(&self) -> SpecFrame {
        SpecFrame { dir: self.dir@, name: self.name@, payload: self.payload@ }
    }
}

pub struct Builder {
    pub frames: Vec<Frame>,
    pub writes: Vec<TreeWrite>,
}

impl View for Builder {
    type V = SpecBuilder;

    open spec fn view(&self) -> SpecBuilder {
        SpecBuilder {
            frames: Seq::new(self.frames@.len(), |i: int| self.frames@[i]@),
            writes: spec_writes_view(self.writes@),
        }
    }
}

/// What the synthesizer returns: every tree object to write (bottom-up, the
/// root last) and the root tree's id.
pub struct TreeSynthesis {
    pub writes: Vec<TreeWrite>,
    pub root_id: Vec<u8>,
}

/// Append `src` to `out`.
fn push_bytes(out: &mut Vec<u8>, src: &Vec<u8>)
    ensures
        final(out)@ == old(out)@ + src@,
{
    let n: usize = src.len();
    let mut k: usize = 0;
    while k < n
        invariant
            n == src@.len(),
            0 <= k <= n,
            out@ == old(out)@ + src@.take(k as int),
        decreases n - k,
    {
        out.push(src[k]);
        proof {
            assert(old(out)@ + src@.take(k + 1) =~= (old(out)@ + src@.take(k as int)).push(
                src@[k as int],
            ));
        }
        k = k + 1;
    }
    proof {
        assert(src@.take(n as int) =~= src@);
    }
}

/// Copy `v[a..b]` out of `v`.
fn sub_bytes(v: &Vec<u8>, a: usize, b: usize) -> (r: Vec<u8>)
    requires
        a <= b <= v@.len(),
    ensures
        r@ == v@.subrange(a as int, b as int),
{
    let mut out: Vec<u8> = Vec::new();
    let mut k: usize = a;
    while k < b
        invariant
            a <= k <= b <= v@.len(),
            out@ == v@.subrange(a as int, k as int),
        decreases b - k,
    {
        out.push(v[k]);
        proof {
            assert(v@.subrange(a as int, k + 1) =~= v@.subrange(a as int, k as int).push(
                v@[k as int],
            ));
        }
        k = k + 1;
    }
    out
}

/// The end of the path component that starts at `k`.
fn comp_end(path: &Vec<u8>, k: usize) -> (r: usize)
    requires
        k <= path@.len(),
    ensures
        r == spec_comp_end(path@, k as int),
        k <= r <= path@.len(),
    decreases path@.len() - k,
{
    if k >= path.len() {
        path.len()
    } else if path[k] == SLASH {
        k
    } else {
        comp_end(path, k + 1)
    }
}

/// Whether `a` is a prefix of `b`.
fn is_prefix(a: &Vec<u8>, b: &Vec<u8>) -> (r: bool)
    ensures
        r == spec_is_prefix(a@, b@),
{
    let n: usize = a.len();
    if n > b.len() {
        return false;
    }
    let mut k: usize = 0;
    while k < n
        invariant
            n == a@.len(),
            n <= b@.len(),
            0 <= k <= n,
            forall|i: int| 0 <= i < k ==> a@[i] == b@[i],
        decreases n - k,
    {
        if a[k] != b[k] {
            return false;
        }
        k = k + 1;
    }
    proof {
        assert(b@.take(n as int) =~= a@);
    }
    true
}

/// Append the mode bytes of a leaf kind.
fn push_kind_mode(out: &mut Vec<u8>, k: &TreeEntryKind)
    ensures
        final(out)@ == old(out)@ + spec_kind_mode_bytes(*k),
{
    match k {
        TreeEntryKind::Blob => {
            out.push(49);
            out.push(48);
            out.push(48);
            out.push(54);
            out.push(52);
            out.push(52);
        },
        TreeEntryKind::BlobExecutable => {
            out.push(49);
            out.push(48);
            out.push(48);
            out.push(55);
            out.push(53);
            out.push(53);
        },
        TreeEntryKind::Link => {
            out.push(49);
            out.push(50);
            out.push(48);
            out.push(48);
            out.push(48);
            out.push(48);
        },
        TreeEntryKind::Commit => {
            out.push(49);
            out.push(54);
            out.push(48);
            out.push(48);
            out.push(48);
            out.push(48);
        },
    }
    proof {
        assert(out@ =~= old(out)@ + spec_kind_mode_bytes(*k));
    }
}

/// Append one serialized leaf entry.
fn push_leaf_line(out: &mut Vec<u8>, k: &TreeEntryKind, name: &Vec<u8>, id: &Vec<u8>)
    ensures
        final(out)@ == old(out)@ + spec_leaf_line(*k, name@, id@),
{
    push_kind_mode(out, k);
    out.push(32);
    push_bytes(out, name);
    out.push(0);
    push_bytes(out, id);
    proof {
        assert(out@ =~= old(out)@ + spec_leaf_line(*k, name@, id@));
    }
}

/// Append one serialized subtree entry.
fn push_subtree_line(out: &mut Vec<u8>, name: &Vec<u8>, id: &Vec<u8>)
    ensures
        final(out)@ == old(out)@ + spec_subtree_line(name@, id@),
{
    out.push(52);
    out.push(48);
    out.push(48);
    out.push(48);
    out.push(48);
    out.push(32);
    push_bytes(out, name);
    out.push(0);
    push_bytes(out, id);
    proof {
        assert(out@ =~= old(out)@ + spec_subtree_line(name@, id@));
    }
}

/// Close the top directory frame into its parent. The hasher accepts or
/// refuses the frame's payload; both outcomes are reported exactly.
fn close_top(b: &mut Builder) -> (r: Result<(), TreeError>)
    requires
        old(b)@.frames.len() >= 2,
    ensures
        r matches Ok(()) ==> final(b)@ == spec_close_top(old(b)@) && sha1_ok(
            ObjectKind::Tree.name_bytes(),
            old(b)@.frames.last().payload,
        ),
        r is Err ==> r == Err::<(), TreeError>(TreeError::HashFailed) && !sha1_ok(
            ObjectKind::Tree.name_bytes(),
            old(b)@.frames.last().payload,
        ),
{
    let top = b.frames.pop().unwrap();
    let id = match hash_object(&ObjectKind::Tree, &top.payload) {
        Some(id) => id,
        None => {
            return Err(TreeError::HashFailed);
        },
    };
    let mut parent = b.frames.pop().unwrap();
    push_subtree_line(&mut parent.payload, &top.name, &id);
    b.frames.push(parent);
    b.writes.push(TreeWrite { id, bytes: top.payload });
    proof {
        let target = spec_close_top(old(b)@);
        assert(b@.frames =~~= target.frames);
        assert(b@.writes =~~= target.writes);
        assert(b@ =~~= target);
    }
    Ok(())
}

/// Close directories until the top one is a prefix of `path`. On failure
/// the refused payload is one of the writes the closing would have planned.
fn pop_to_prefix(b: &mut Builder, path: &Vec<u8>) -> (r: Result<(), TreeError>)
    requires
        old(b)@.frames.len() >= 1,
    ensures
        r matches Ok(()) ==> final(b)@ == spec_pop_to_prefix(old(b)@, path@) && final(b)@.frames.len() >= 1
            && (spec_writes_ok(old(b)@.writes) ==> spec_writes_ok(final(b)@.writes)),
        r is Err ==> r == Err::<(), TreeError>(TreeError::HashFailed) && (exists|i: int|
            old(b)@.writes.len() <= i < spec_pop_to_prefix(old(b)@, path@).writes.len()
                && !sha1_ok(
                ObjectKind::Tree.name_bytes(),
                #[trigger] spec_pop_to_prefix(old(b)@, path@).writes[i].1,
            )),
{
    proof {
        assert(old(b)@.writes.take(old(b)@.writes.len() as int) =~= old(b)@.writes);
    }
    loop
        invariant
            b@.frames.len() >= 1,
            spec_pop_to_prefix(b@, path@) == spec_pop_to_prefix(old(b)@, path@),
            spec_writes_prefix(old(b)@.writes, b@.writes),
            spec_writes_ok(old(b)@.writes) ==> spec_writes_ok(b@.writes),
        ensures
            b@ == spec_pop_to_prefix(old(b)@, path@),
            b@.frames.len() >= 1,
            spec_writes_ok(old(b)@.writes) ==> spec_writes_ok(b@.writes),
        decreases b@.frames.len(),
    {
        if b.frames.len() == 1 {
            break;
        }
        let fl: usize = b.frames.len();
        let done = is_prefix(&b.frames[fl - 1].dir, path);
        if done {
            break;
        }
        let ghost pre = b@;
        match close_top(b) {
            Ok(()) => {},
            Err(e) => {
                proof {
                    let kindb = ObjectKind::Tree.name_bytes();
                    let target = spec_pop_to_prefix(old(b)@, path@);
                    let st2 = spec_close_top(pre);
                    assert(spec_pop_to_prefix(pre, path@) == spec_pop_to_prefix(st2, path@));
                    lemma_pop_writes_extends(st2, path@);
                    let i = pre.writes.len() as int;
                    assert(st2.writes[i].1 == pre.frames.last().payload);
                    assert(target.writes.take(st2.writes.len() as int) == st2.writes);
                    assert(target.writes[i] == st2.writes[i]);
                    assert(old(b)@.writes.len() <= i < target.writes.len());
                    assert(!sha1_ok(kindb, target.writes[i].1));
                }
                return Err(e);
            },
        }
        proof {
            assert(spec_pop_to_prefix(pre, path@) == spec_pop_to_prefix(b@, path@));
            let closed = pre.frames.last().payload;
            assert(b@.writes == pre.writes.push(
                (git_object_id(ObjectKind::Tree.name_bytes(), closed), closed),
            ));
            assert(b@.writes.take(old(b)@.writes.len() as int) =~= pre.writes.take(
                old(b)@.writes.len() as int,
            ));
            if spec_writes_ok(old(b)@.writes) {
                assert forall|i: int| 0 <= i < b@.writes.len() implies sha1_ok(
                    ObjectKind::Tree.name_bytes(),
                    #[trigger] b@.writes[i].1,
                ) by {
                    if i < pre.writes.len() {
                        assert(b@.writes[i] == pre.writes[i]);
                    } else {
                        assert(b@.writes[i].1 == closed);
                    }
                }
            }
        }
    }
    Ok(())
}

/// Open one directory frame per component of `path` below the current top,
/// burning one unit of fuel per opened directory.
fn open_dirs_rec(b: &mut Builder, path: &Vec<u8>, fuel: usize)
    requires
        old(b)@.frames.len() >= 1,
    ensures
        final(b)@ == spec_open_dirs_rec(old(b)@, path@, fuel as int),
        final(b)@.frames.len() >= 1,
    decreases fuel,
{
    if fuel == 0 {
        return ;
    }
    let fl: usize = b.frames.len();
    let d: usize = b.frames[fl - 1].dir.len();
    if d > path.len() {
        return ;
    }
    let ce = comp_end(path, d);
    if ce >= path.len() {
        return ;
    }
    let nf = Frame {
        dir: sub_bytes(path, 0, ce + 1),
        name: sub_bytes(path, d, ce),
        payload: Vec::new(),
    };
    proof {
        assert(path@.subrange(0, ce + 1) =~= path@.take(ce + 1));
    }
    b.frames.push(nf);
    proof {
        let mid = SpecBuilder {
            frames: old(b)@.frames.push(
                SpecFrame {
                    dir: path@.take(ce + 1),
                    name: path@.subrange(d as int, ce as int),
                    payload: Seq::empty(),
                },
            ),
            writes: old(b)@.writes,
        };
        assert(b@.frames =~~= mid.frames);
        assert(b@ =~~= mid);
    }
    open_dirs_rec(b, path, fuel - 1);
}

/// Append the leaf line for `e` to the top directory.
fn append_leaf(b: &mut Builder, e: &FlatEntry)
    requires
        old(b)@.frames.len() >= 1,
    ensures
        final(b)@ == spec_append_leaf(old(b)@, (*e)@),
        final(b)@.frames.len() >= 1,
{
    let mut top = b.frames.pop().unwrap();
    let d: usize = top.dir.len();
    let name: Vec<u8> = if d <= e.path.len() {
        sub_bytes(&e.path, d, e.path.len())
    } else {
        Vec::new()
    };
    push_leaf_line(&mut top.payload, &e.kind, &name, &e.id);
    b.frames.push(top);
    proof {
        let target = spec_append_leaf(old(b)@, (*e)@);
        assert(b@.frames =~~= target.frames);
        assert(b@ =~~= target);
    }
}

/// Feed one entry through the synthesizer. On failure the refused payload
/// is one of the writes this step would have planned.
fn step(b: &mut Builder, e: &FlatEntry) -> (r: Result<(), TreeError>)
    requires
        old(b)@.frames.len() >= 1,
    ensures
        r matches Ok(()) ==> final(b)@ == spec_step(old(b)@, (*e)@) && final(b)@.frames.len() >= 1
            && (spec_writes_ok(old(b)@.writes) ==> spec_writes_ok(final(b)@.writes)),
        r is Err ==> r == Err::<(), TreeError>(TreeError::HashFailed) && (exists|i: int|
            old(b)@.writes.len() <= i < spec_step(old(b)@, (*e)@).writes.len() && !sha1_ok(
                ObjectKind::Tree.name_bytes(),
                #[trigger] spec_step(old(b)@, (*e)@).writes[i].1,
            )),
{
    proof {
        lemma_step_writes_extends(old(b)@, (*e)@);
    }
    match pop_to_prefix(b, &e.path) {
        Ok(()) => {},
        Err(err) => {
            return Err(err);
        },
    }
    open_dirs_rec(b, &e.path, e.path.len());
    append_leaf(b, e);
    Ok(())
}

/// Synthesize the tree objects of a fixed entry sequence: every directory
/// level becomes one tree object, serialized and content-addressed bottom-up,
/// the root tree last. The result is a function of the entry sequence alone,
/// so synthesizing the same entries twice plans identical objects and ids.
/// Synthesis succeeds exactly when the hasher accepts every planned payload;
/// a refusal (its collision detection) fails the whole synthesis, and then
/// nothing is planned.
pub fn synthesize_tree(entries: &Vec<FlatEntry>) -> (r: Result<TreeSynthesis, TreeError>)
    ensures
        r is Ok <==> spec_writes_ok(spec_synthesize(spec_entries_view(entries@)).0),
        r matches Ok(t) ==> spec_writes_view(t.writes@) == spec_synthesize(spec_entries_view(entries@)).0
            && t.root_id@ == spec_synthesize(spec_entries_view(entries@)).1
            && t.root_id@.len() == 20,
        r is Err ==> r == Err::<TreeSynthesis, TreeError>(TreeError::HashFailed),
{
    let ghost ev = spec_entries_view(entries@);
    let ghost full = spec_synthesize(ev).0;
    proof {
        assert(full == spec_finalize(spec_fold(ev)).writes);
    }
    let root = Frame { dir: Vec::new(), name: Vec::new(), payload: Vec::new() };
    let mut frames: Vec<Frame> = Vec::new();
    frames.push(root);
    let mut b = Builder { frames, writes: Vec::new() };
    proof {
        assert(b@.frames =~~= spec_init().frames);
        assert(b@.writes =~~= spec_init().writes);
        assert(b@ =~~= spec_init());
    }
    let n: usize = entries.len();
    let mut k: usize = 0;
    while k < n
        invariant
            n == entries@.len(),
            ev == spec_entries_view(entries@),
            full == spec_synthesize(ev).0,
            0 <= k <= n,
            b@.frames.len() >= 1,
            b@ == spec_fold(ev.take(k as int)),
            spec_writes_ok(b@.writes),
        decreases n - k,
    {
        let ghost pre = b@;
        proof {
            assert(ev.take(k + 1).drop_last() =~= ev.take(k as int));
            assert(ev.take(k + 1).last() == entries@[k as int]@);
        }
        match step(&mut b, &entries[k]) {
            Ok(()) => {},
            Err(err) => {
                proof {
                    assert(spec_fold(ev.take(k + 1)) == spec_step(pre, entries@[k as int]@));
                    lemma_fold_take_extends(ev, k + 1);
                    lemma_finalize_writes_extends(spec_fold(ev));
                    lemma_writes_prefix_trans(
                        spec_fold(ev.take(k + 1)).writes,
                        spec_fold(ev).writes,
                        spec_finalize(spec_fold(ev)).writes,
                    );
                    let stepw = spec_step(pre, entries@[k as int]@).writes;
                    let i = choose|i: int|
                        pre.writes.len() <= i < stepw.len() && !sha1_ok(
                            ObjectKind::Tree.name_bytes(),
                            #[trigger] stepw[i].1,
                        );
                    assert(full.take(stepw.len() as int) == stepw);
                    assert(full.take(stepw.len() as int)[i] == stepw[i]);
                    assert(full[i] == full.take(stepw.len() as int)[i]);
                    assert(!spec_writes_ok(full));
                }
                return Err(err);
            },
        }
        k = k + 1;
    }
    proof {
        assert(ev.take(n as int) =~= ev);
    }
    loop
        invariant
            ev == spec_entries_view(entries@),
            full == spec_synthesize(ev).0,
            b@.frames.len() >= 1,
            spec_finalize(b@) == spec_finalize(spec_fold(ev)),
            spec_writes_ok(b@.writes),
        ensures
            b@.frames.len() == 1,
            spec_finalize(b@) == spec_finalize(spec_fold(ev)),
            spec_writes_ok(b@.writes),
        decreases b@.frames.len(),
    {
        if b.frames.len() == 1 {
            break;
        }
        let ghost pre = b@;
        match close_top(&mut b) {
            Ok(()) => {},
            Err(err) => {
                proof {
                    let st2 = spec_close_top(pre);
                    assert(spec_finalize(pre) == spec_finalize(st2));
                    lemma_finalize_writes_extends(st2);
                    let i = pre.writes.len() as int;
                    assert(st2.writes[i].1 == pre.frames.last().payload);
                    assert(full.take(st2.writes.len() as int) == st2.writes);
                    assert(full.take(st2.writes.len() as int)[i] == st2.writes[i]);
                    assert(full[i] == full.take(st2.writes.len() as int)[i]);
                    assert(!spec_writes_ok(full));
                }
                return Err(err);
            },
        }
        proof {
            assert(spec_finalize(pre) == spec_finalize(b@));
            let closed = pre.frames.last().payload;
            assert(b@.writes == pre.writes.push(
                (git_object_id(ObjectKind::Tree.name_bytes(), closed), closed),
            ));
            assert forall|i: int| 0 <= i < b@.writes.len() implies sha1_ok(
                ObjectKind::Tree.name_bytes(),
                #[trigger] b@.writes[i].1,
            ) by {
                if i < pre.writes.len() {
                    assert(b@.writes[i] == pre.writes[i]);
                } else {
                    assert(b@.writes[i].1 == closed);
                }
            }
        }
    }
    let ghost fin = b@;
    let root_frame = b.frames.pop().unwrap();
    proof {
        assert(fin.frames.last() == fin.frames[0]);
        assert(full == fin.writes.push(
            (
                git_object_id(ObjectKind::Tree.name_bytes(), fin.frames[0].payload),
                fin.frames[0].payload,
            ),
        ));
    }
    let root_id = match hash_object(&ObjectKind::Tree, &root_frame.payload) {
        Some(id) => id,
        None => {
            proof {
                let i = fin.writes.len() as int;
                assert(full[i].1 == fin.frames[0].payload);
                assert(!spec_writes_ok(full));
            }
            return Err(TreeError::HashFailed);
        },
    };
    let root_id_copy = crate::index::clone_bytes(&root_id);
    b.writes.push(TreeWrite { id: root_id, bytes: root_frame.payload });
    let result = TreeSynthesis { writes: b.writes, root_id: root_id_copy };
    proof {
        let target = spec_synthesize(ev);
        assert(spec_writes_view(result.writes@) =~~= target.0);
        assert(result.root_id@ == target.1);
        assert forall|i: int| 0 <= i < full.len() implies sha1_ok(
            ObjectKind::Tree.name_bytes(),
            #[trigger] full[i].1,
        ) by {
            if i < fin.writes.len() {
                assert(full[i] == fin.writes[i]);
            } else {
                assert(full[i].1 == fin.frames[0].payload);
            }
        }
    }
    Ok(result)
}

} // verus!
