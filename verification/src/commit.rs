//! Commit planning: from the current head state, the staged index, a
//! message and a signature, plan the full set of objects a commit writes
//! (every tree level, then the commit itself) and the parents it records.
//!
//! Preconditions are checked in order, first failure wins: a detached head
//! is refused before anything else, then a conflicted index; only then are
//! objects planned. A failed plan carries no objects, so nothing can be
//! written from it.

use crate::index::{prepare_entries, spec_flatten, spec_has_conflict, IndexEntry};
use gix_object::WriteTo;
use crate::tree::{
    git_object_id, hash_object, sha1_ok, spec_synthesize, spec_writes_ok, spec_writes_view,
    synthesize_tree, ObjectKind, TreeWrite,
};
use vstd::prelude::*;

verus! {

/// Where the repository's head points: nowhere attachable (detached), at a
/// branch that has no commit yet (unborn), or at a branch whose tip is the
/// given commit id.
pub enum HeadState {
    Detached,
    Unborn,
    Attached { tip: Vec<u8> },
}

/// The identity recorded for author and committer, with the commit time as
/// seconds since the epoch and a timezone offset in seconds.
pub struct CommitSignature {
    pub name: Vec<u8>,
    pub email: Vec<u8>,
    pub seconds: i64,
    pub offset: i32,
}

/// Why no commit was planned.
#[derive(Clone, Copy, Debug, PartialEq, Eq, Structural)]
pub enum CommitError {
    /// The head is not attached to a branch.
    DetachedHead,
    /// The index holds entries at a non-unconflicted stage.
    Conflicted,
    /// The object encoder or hasher refused its input.
    ObjectEncoding,
}

impl CommitError {
    /// The diagnostic for this failure.
    pub fn message(&self) -> (r: String)
        ensures
            *self == CommitError::DetachedHead ==> r@ == "Detached HEAD is not supported for GitCommit"@,
            *self == CommitError::Conflicted ==> r@ == "Cannot commit with unmerged paths present"@,
            *self == CommitError::ObjectEncoding ==> r@ == "Failed to encode commit object"@,
    {
        match self {
            CommitError::DetachedHead => String::from_str(
                "Detached HEAD is not supported for GitCommit",
            ),
            CommitError::Conflicted => String::from_str("Cannot commit with unmerged paths present"),
            CommitError::ObjectEncoding => String::from_str("Failed to encode commit object"),
        }
    }
}

/// The parent list a head state dictates: none for an unborn branch, the
/// branch tip otherwise. This system never writes a merge commit.
pub open spec fn spec_parents_of(h: HeadState) -> Seq<Seq<u8>> {
    match h {
        HeadState::Detached => Seq::empty(),
        HeadState::Unborn => Seq::empty(),
        HeadState::Attached { tip } => seq![tip@],
    }
}

/// A byte string the signature encoder accepts as a name or email: git
/// refuses the bytes `<`, `>` and newline, which would corrupt the header.
pub open spec fn spec_token_ok(s: Seq<u8>) -> bool {
    forall|i: int| 0 <= i < s.len() ==> ((#[trigger] s[i]) != 60 && s[i] != 62 && s[i] != 10)
}

/// An id the commit encoder accepts: the raw digest bytes of this build's
/// object format (SHA-1, twenty bytes).
pub open spec fn spec_id_ok(id: Seq<u8>) -> bool {
    id.len() == 20
}

/// Every parent id is one the commit encoder accepts.
pub open spec fn spec_parents_ok(ps: Seq<Seq<u8>>) -> bool {
    forall|i: int| 0 <= i < ps.len() ==> spec_id_ok(#[trigger] ps[i])
}

/// The largest timezone offset magnitude the commit encoder can represent:
/// one hundred hours, in seconds.
pub const MAX_OFFSET_SECONDS: i32 = 360000;

/// The serialized form of a commit object with the given tree, parents,
/// author/committer identity, timestamp and message. Computed only by the
/// commit encoder; the same fields always serialize the same way.
pub uninterp spec fn commit_bytes_of(
    tree: Seq<u8>,
    parents: Seq<Seq<u8>>,
    name: Seq<u8>,
    email: Seq<u8>,
    seconds: int,
    offset: int,
    message: Seq<u8>,
) -> Seq<u8>;

/// Relies on gix_object::Commit::write_to: the serialized commit is a
/// function of its tree id, parent ids, signature fields and message alone.
/// It succeeds exactly when the tree id and every parent id are raw SHA-1
/// digests (twenty bytes, the only format of this build) and neither name
/// nor email holds `<`, `>` or a newline; those are the only validations it
/// performs, and the message is written as given. Offsets of one hundred
/// hours or more cannot be represented and would abort the rendering of the
/// signature time, so they are excluded up front.
#[verifier::external_body]
fn encode_commit(
    tree: &Vec<u8>,
    parents: &Vec<Vec<u8>>,
    name: &Vec<u8>,
    email: &Vec<u8>,
    seconds: i64,
    offset: i32,
    message: &Vec<u8>,
) -> (r: Option<Vec<u8>>)
    requires
        -MAX_OFFSET_SECONDS < offset < MAX_OFFSET_SECONDS,
    ensures
        r matches Some(b) ==> b@ == commit_bytes_of(
            tree@,
            parents.deep_view(),
            name@,
            email@,
            seconds as int,
            offset as int,
            message@,
        ),
        r is Some <==> (spec_id_ok(tree@) && spec_parents_ok(parents.deep_view())
            && spec_token_ok(name@) && spec_token_ok(email@)),
{
    let time = gix_object::date::Time { seconds, offset };
    let sig = gix_actor::Signature { name: name.as_slice().into(), email: email.as_slice().into(), time };
    let ids = parents.iter().map(|p| p.as_slice().try_into().ok()).collect::<Option<Vec<_>>>()?;
    let commit = gix_object::Commit {
        tree: tree.as_slice().try_into().ok()?,
        parents: ids.into(),
        author: sig.clone(),
        committer: sig,
        encoding: None,
        message: message.as_slice().into(),
        extra_headers: vec![],
    };
    let mut out = vec![];
    commit.write_to(&mut out).ok().map(|_| out)
}

/// Everything a commit writes, planned but not yet persisted: the tree
/// objects bottom-up (root last), the root tree id, the parents recorded,
/// and the serialized commit with its id. The branch advances from the
/// planned parent to the planned commit id.
#[derive(Debug)]
pub struct CommitPlan {
    pub tree_writes: Vec<TreeWrite>,
    pub root_tree_id: Vec<u8>,
    pub parents: Vec<Vec<u8>>,
    pub commit_bytes: Vec<u8>,
    pub commit_id: Vec<u8>,
}

/// Everything the object layer must accept for a commit plan to come out:
/// the hasher takes every synthesized tree payload, the timezone offset is
/// representable, the parent ids are raw digests, the identity holds no
/// header-corrupting bytes, and the hasher takes the serialized commit.
/// Each conjunct is a function of the inputs alone.
pub open spec fn spec_commit_viable(
    head: HeadState,
    entries: Seq<IndexEntry>,
    message: Seq<u8>,
    sig: CommitSignature,
) -> bool {
    &&& spec_writes_ok(spec_synthesize(spec_flatten(entries)).0)
    &&& -MAX_OFFSET_SECONDS < sig.offset < MAX_OFFSET_SECONDS
    &&& spec_parents_ok(spec_parents_of(head))
    &&& spec_token_ok(sig.name@)
    &&& spec_token_ok(sig.email@)
    &&& sha1_ok(
        ObjectKind::Commit.name_bytes(),
        commit_bytes_of(
            spec_synthesize(spec_flatten(entries)).1,
            spec_parents_of(head),
            sig.name@,
            sig.email@,
            sig.seconds as int,
            sig.offset as int,
            message,
        ),
    )
}

/// Plan a commit. Checked in order, first failure wins: a detached head is
/// refused, then a conflicted index; both failures plan nothing, so no
/// object write or ref update can follow from them. Past those two
/// refusals, planning succeeds exactly when the object layer accepts the
/// inputs (`spec_commit_viable`), and the plan is a function of the inputs
/// alone: the trees synthesized from the index, one parent (the branch tip)
/// or none (unborn branch), and the commit serialized over the root tree,
/// signature and message.
pub fn build_commit(
    head: &HeadState,
    entries: &Vec<IndexEntry>,
    message: &Vec<u8>,
    sig: &CommitSignature,
) -> (r: Result<CommitPlan, CommitError>)
    ensures
        (*head is Detached) <==> r == Err::<CommitPlan, CommitError>(CommitError::DetachedHead),
        (!(*head is Detached) && spec_has_conflict(entries@)) <==> r == Err::<
            CommitPlan,
            CommitError,
        >(CommitError::Conflicted),
        !(*head is Detached) && !spec_has_conflict(entries@) ==> (r is Ok <==> spec_commit_viable(
            *head,
            entries@,
            message@,
            *sig,
        )),
        (!(*head is Detached) && !spec_has_conflict(entries@) && !spec_commit_viable(
            *head,
            entries@,
            message@,
            *sig,
        )) <==> r == Err::<CommitPlan, CommitError>(CommitError::ObjectEncoding),
        r matches Ok(p) ==> {
            &&& spec_writes_view(p.tree_writes@) == spec_synthesize(spec_flatten(entries@)).0
            &&& p.root_tree_id@ == spec_synthesize(spec_flatten(entries@)).1
            &&& p.parents.deep_view() == spec_parents_of(*head)
            &&& p.commit_bytes@ == commit_bytes_of(
                spec_synthesize(spec_flatten(entries@)).1,
                spec_parents_of(*head),
                sig.name@,
                sig.email@,
                sig.seconds as int,
                sig.offset as int,
                message@,
            )
            &&& p.commit_id@ == git_object_id(ObjectKind::Commit.name_bytes(), p.commit_bytes@)
        },
{
    match head {
        HeadState::Detached => {
            return Err(CommitError::DetachedHead);
        },
        _ => {},
    }
    let flats = match prepare_entries(entries) {
        Ok(f) => f,
        Err(_) => {
            return Err(CommitError::Conflicted);
        },
    };
    let synth = match synthesize_tree(&flats) {
        Ok(t) => t,
        Err(_) => {
            return Err(CommitError::ObjectEncoding);
        },
    };
    if !(sig.offset > -MAX_OFFSET_SECONDS && sig.offset < MAX_OFFSET_SECONDS) {
        return Err(CommitError::ObjectEncoding);
    }
    let mut parents: Vec<Vec<u8>> = Vec::new();
    match head {
        HeadState::Attached { tip } => {
            parents.push(crate::index::clone_bytes(tip));
        },
        _ => {},
    }
    proof {
        assert(parents.deep_view() =~~= spec_parents_of(*head));
    }
    let commit_bytes = match encode_commit(
        &synth.root_id,
        &parents,
        &sig.name,
        &sig.email,
        sig.seconds,
        sig.offset,
        message,
    ) {
        Some(b) => b,
        None => {
            return Err(CommitError::ObjectEncoding);
        },
    };
    let commit_id = match hash_object(&ObjectKind::Commit, &commit_bytes) {
        Some(id) => id,
        None => {
            return Err(CommitError::ObjectEncoding);
        },
    };
    Ok(
        CommitPlan {
            tree_writes: synth.writes,
            root_tree_id: synth.root_id,
            parents,
            commit_bytes,
            commit_id,
        },
    )
}

/// The identity a commit records: the configured name and email, falling
/// back to the fixed default identity where the repository configuration
/// supplies none.
pub fn signature_identity(name: Option<String>, email: Option<String>) -> (r: (String, String))
    ensures
        name matches Some(n) ==> r.0@ == n@,
        name is None ==> r.0@ == "agt"@,
        email matches Some(e) ==> r.1@ == e@,
        email is None ==> r.1@ == "agt@local"@,
{
    let n = match name {
        Some(n) => n,
        None => String::from_str("agt"),
    };
    let e = match email {
        Some(e) => e,
        None => String::from_str("agt@local"),
    };
    (n, e)
}

} // verus!
