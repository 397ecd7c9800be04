//! Ref decorations: the human-readable ref names attached to displayed
//! commits — the current branch as `HEAD -> branch`, plus tags and
//! remote-tracking branches, matched to commits by target id.

use crate::color::{spec_paint, ColorConfig, Style};
use crate::index::{bytes_eq, clone_bytes};
use crate::strutil::spec_starts_with;
use vstd::prelude::*;

verus! {

/// A named ref with the id of the commit it points at.
pub struct RefTarget {
    pub name: String,
    pub id: Vec<u8>,
}

/// The decoration data of the status line: the current branch, and the
/// tags and remote-tracking branches whose target equals the head commit.
pub struct Decorations {
    pub head_branch: String,
    pub tags: Vec<String>,
    pub remote_branches: Vec<String>,
}

/// The names, in order, of the refs that point at `id`.
pub open spec fn spec_matching_names(refs: Seq<(Seq<char>, Seq<u8>)>, id: Seq<u8>) -> Seq<
    Seq<char>,
>
    decreases refs.len(),
{
    if refs.len() == 0 {
        Seq::empty()
    } else {
        let rest = spec_matching_names(refs.drop_last(), id);
        if refs.last().1 == id {
            rest.push(refs.last().0)
        } else {
            rest
        }
    }
}

/// The view of a ref list: name characters with target bytes.
pub open spec fn spec_refs_view(refs: Seq<RefTarget>) -> Seq<(Seq<char>, Seq<u8>)> {
    Seq::new(refs.len(), |i: int| (refs[i].name@, refs[i].id@))
}

/// Keep the names of the refs whose target equals `id`.
pub fn matching_names(refs: &Vec<RefTarget>, id: &Vec<u8>) -> (r: Vec<String>)
    ensures
        r.deep_view() == spec_matching_names(spec_refs_view(refs@), id@),
{
    let n: usize = refs.len();
    let mut out: Vec<String> = Vec::new();
    let mut k: usize = 0;
    while k < n
        invariant
            n == refs@.len(),
            0 <= k <= n,
            out.deep_view() == spec_matching_names(spec_refs_view(refs@).take(k as int), id@),
        decreases n - k,
    {
        let ghost rv = spec_refs_view(refs@);
        if bytes_eq(&refs[k].id, id) {
            let ghost pre = out.deep_view();
            out.push(refs[k].name.clone());
            proof {
                assert(out.deep_view() =~= pre.push(refs@[k as int].name@));
            }
        }
        proof {
            assert(rv.take(k + 1).drop_last() =~= rv.take(k as int));
            assert(rv.take(k + 1).last() == rv[k as int]);
        }
        k = k + 1;
    }
    proof {
        assert(spec_refs_view(refs@).take(n as int) =~= spec_refs_view(refs@));
    }
    out
}

/// Collect the status decorations: the current branch name, and the names
/// of the tags and remote-tracking branches that point at the head commit.
pub fn collect_decorations(
    head_branch: String,
    head_id: &Vec<u8>,
    tags: &Vec<RefTarget>,
    remotes: &Vec<RefTarget>,
) -> (d: Decorations)
    ensures
        d.head_branch == head_branch,
        d.tags.deep_view() == spec_matching_names(spec_refs_view(tags@), head_id@),
        d.remote_branches.deep_view() == spec_matching_names(spec_refs_view(remotes@), head_id@),
{
    let tag_names = matching_names(tags, head_id);
    let remote_names = matching_names(remotes, head_id);
    Decorations { head_branch, tags: tag_names, remote_branches: remote_names }
}

/// The characters of `HEAD -> `.
pub open spec fn spec_head_arrow() -> Seq<char> {
    seq!['H', 'E', 'A', 'D', ' ', '-', '>', ' ']
}

/// The first decoration that spells `HEAD -> branch`, scanning from
/// position `i`: the position of the match, or the length of the list.
pub open spec fn spec_find_head_arrow(refs: Seq<Seq<char>>, i: int) -> int
    decreases refs.len() - i,
{
    if i < 0 || i >= refs.len() {
        refs.len() as int
    } else if spec_starts_with(refs[i], spec_head_arrow()) {
        i
    } else {
        spec_find_head_arrow(refs, i + 1)
    }
}

/// The branch a `HEAD -> branch` decoration names, if one is present.
pub open spec fn spec_head_target(refs: Seq<Seq<char>>) -> Option<Seq<char>> {
    let i = spec_find_head_arrow(refs, 0);
    if i >= refs.len() {
        Option::None
    } else {
        Option::Some(refs[i].skip(spec_head_arrow().len() as int))
    }
}

/// The list with every occurrence of `t` removed.
pub open spec fn spec_drop_name(refs: Seq<Seq<char>>, t: Seq<char>) -> Seq<Seq<char>>
    decreases refs.len(),
{
    if refs.len() == 0 {
        Seq::empty()
    } else {
        let rest = spec_drop_name(refs.drop_last(), t);
        if refs.last() == t {
            rest
        } else {
            rest.push(refs.last())
        }
    }
}

/// The decorations with the bare name of the `HEAD -> branch` target
/// removed, so the branch is not listed twice.
pub open spec fn spec_dedup_refs(refs: Seq<Seq<char>>) -> Seq<Seq<char>> {
    match spec_head_target(refs) {
        Option::None => refs,
        Option::Some(t) => spec_drop_name(refs, t),
    }
}

/// The items joined with `, ` between them.
pub open spec fn spec_join_comma(items: Seq<Seq<char>>) -> Seq<char>
    decreases items.len(),
{
    if items.len() == 0 {
        Seq::empty()
    } else if items.len() == 1 {
        items[0]
    } else {
        spec_join_comma(items.drop_last()) + seq![',', ' '] + items.last()
    }
}

/// The decoration suffix of a displayed commit: nothing for a commit no
/// ref points at, otherwise the deduplicated names, comma-joined, painted,
/// in parentheses after one space.
pub open spec fn spec_format_decorations(enabled: bool, refs: Seq<Seq<char>>) -> Seq<char> {
    if refs.len() == 0 {
        Seq::empty()
    } else {
        seq![' ', '('] + spec_paint(enabled, Style::Yellow, spec_join_comma(spec_dedup_refs(refs)))
            + seq![')']
    }
}

/// Render the decoration suffix of one displayed commit: when a
/// `HEAD -> branch` decoration is present, the bare `branch` name is
/// suppressed, so one target is never named twice.
pub fn format_decorations(refs: &Vec<String>, colors: &ColorConfig) -> (r: String)
    ensures
        r@ == spec_format_decorations(colors.enabled, refs.deep_view()),
{
    let ghost rv = refs.deep_view();
    if refs.len() == 0 {
        return String::new();
    }
    proof {
        reveal_strlit("HEAD -> ");
        assert("HEAD -> "@ =~= spec_head_arrow());
    }
    let n: usize = refs.len();
    let mut head_idx: usize = 0;
    loop
        invariant
            n == refs@.len(),
            rv == refs.deep_view(),
            "HEAD -> "@ == spec_head_arrow(),
            0 <= head_idx <= n,
            spec_find_head_arrow(rv, 0) == spec_find_head_arrow(rv, head_idx as int),
        ensures
            0 <= head_idx <= n,
            head_idx as int == spec_find_head_arrow(rv, 0),
            head_idx < n ==> spec_starts_with(rv[head_idx as int], spec_head_arrow()),
        decreases n - head_idx,
    {
        if head_idx == n {
            break;
        }
        if crate::strutil::starts_with(refs[head_idx].as_str(), "HEAD -> ") {
            break;
        }
        head_idx = head_idx + 1;
    }
    let kept: Vec<String> = if head_idx < n {
        let target = refs[head_idx].as_str().substring_char(
            8,
            refs[head_idx].as_str().unicode_len(),
        );
        proof {
            assert(target@ =~= rv[head_idx as int].skip(8));
            assert(spec_head_target(rv) == Option::Some(target@));
        }
        let mut kept: Vec<String> = Vec::new();
        let mut k: usize = 0;
        while k < n
            invariant
                n == refs@.len(),
                rv == refs.deep_view(),
                0 <= k <= n,
                kept.deep_view() == spec_drop_name(rv.take(k as int), target@),
            decreases n - k,
        {
            let keep = !crate::strutil::str_eq(refs[k].as_str(), target);
            let ghost pre = kept.deep_view();
            if keep {
                kept.push(refs[k].clone());
            }
            proof {
                assert(rv.take(k + 1).drop_last() =~= rv.take(k as int));
                assert(rv.take(k + 1).last() == rv[k as int]);
                if keep {
                    assert(kept.deep_view() =~= pre.push(rv[k as int]));
                }
            }
            k = k + 1;
        }
        proof {
            assert(rv.take(n as int) =~= rv);
        }
        kept
    } else {
        proof {
            assert(spec_head_target(rv) is None);
        }
        let mut kept: Vec<String> = Vec::new();
        let mut k: usize = 0;
        while k < n
            invariant
                n == refs@.len(),
                rv == refs.deep_view(),
                0 <= k <= n,
                kept.deep_view() == rv.take(k as int),
            decreases n - k,
        {
            let ghost pre = kept.deep_view();
            kept.push(refs[k].clone());
            proof {
                assert(kept.deep_view() =~= pre.push(rv[k as int]));
                assert(rv.take(k + 1) =~= rv.take(k as int).push(rv[k as int]));
            }
            k = k + 1;
        }
        proof {
            assert(rv.take(n as int) =~= rv);
        }
        kept
    };
    let m: usize = kept.len();
    let mut joined = String::new();
    let mut j: usize = 0;
    proof {
        reveal_strlit(", ");
        assert(", "@ =~= seq![',', ' ']);
    }
    while j < m
        invariant
            m == kept@.len(),
            0 <= j <= m,
            ", "@ == seq![',', ' '],
            joined@ == spec_join_comma(kept.deep_view().take(j as int)),
        decreases m - j,
    {
        if j > 0 {
            joined.append(", ");
        }
        joined.append(kept[j].as_str());
        proof {
            let kv = kept.deep_view();
            assert(kv.take(j + 1).drop_last() =~= kv.take(j as int));
            assert(kv.take(j + 1).last() == kv[j as int]);
            if j == 0 {
                assert(joined@ =~= spec_join_comma(kv.take(1)));
            }
        }
        j = j + 1;
    }
    proof {
        assert(kept.deep_view().take(m as int) =~= kept.deep_view());
    }
    let styled = colors.paint(&Style::Yellow, joined.as_str());
    let mut out = String::from_str(" (");
    out.append(styled.as_str());
    out.append(")");
    proof {
        reveal_strlit(" (");
        reveal_strlit(")");
        assert(" ("@ =~= seq![' ', '(']);
        assert(")"@ =~= seq![')']);
        assert(out@ =~= spec_format_decorations(colors.enabled, rv));
    }
    out
}

/// The head ref as the log decorates it: the branch HEAD is attached to,
/// if any, and the commit id it resolves to.
pub struct HeadRef {
    pub branch: Option<String>,
    pub id: Vec<u8>,
}

/// The decorations of one commit in the log: the commit id and the ref
/// names that point at it, in the order they were offered.
pub struct RefGroup {
    pub id: Vec<u8>,
    pub names: Vec<String>,
}

/// The view of a group list.
pub open spec fn spec_groups_view(gs: Seq<RefGroup>) -> Seq<(Seq<u8>, Seq<Seq<char>>)> {
    Seq::new(gs.len(), |i: int| (gs[i].id@, gs[i].names.deep_view()))
}

/// The first group holding `id`, scanning from position `i`: its position,
/// or the length of the list.
pub open spec fn spec_find_group(
    gs: Seq<(Seq<u8>, Seq<Seq<char>>)>,
    id: Seq<u8>,
    i: int,
) -> int
    decreases gs.len() - i,
{
    if i < 0 || i >= gs.len() {
        gs.len() as int
    } else if gs[i].0 == id {
        i
    } else {
        spec_find_group(gs, id, i + 1)
    }
}

/// One ref added to the groups: appended to the group of its target when
/// one exists, else opening a new group at the end.
pub open spec fn spec_add_ref(
    gs: Seq<(Seq<u8>, Seq<Seq<char>>)>,
    id: Seq<u8>,
    name: Seq<char>,
) -> Seq<(Seq<u8>, Seq<Seq<char>>)> {
    let i = spec_find_group(gs, id, 0);
    if i >= gs.len() {
        gs.push((id, seq![name]))
    } else {
        gs.update(i, (gs[i].0, gs[i].1.push(name)))
    }
}

/// Every ref added in order, so each commit carries the names of all refs
/// that point at it.
pub open spec fn spec_group_refs(refs: Seq<(Seq<char>, Seq<u8>)>) -> Seq<
    (Seq<u8>, Seq<Seq<char>>),
>
    decreases refs.len(),
{
    if refs.len() == 0 {
        Seq::empty()
    } else {
        spec_add_ref(spec_group_refs(refs.drop_last()), refs.last().1, refs.last().0)
    }
}

/// Add one ref to the groups.
fn add_ref(groups: &mut Vec<RefGroup>, name: String, id: &Vec<u8>)
    ensures
        spec_groups_view(final(groups)@) == spec_add_ref(
            spec_groups_view(old(groups)@),
            id@,
            name@,
        ),
{
    let ghost gv = spec_groups_view(groups@);
    let n: usize = groups.len();
    let mut k: usize = 0;
    loop
        invariant
            n == groups@.len(),
            gv == spec_groups_view(groups@),
            0 <= k <= n,
            spec_find_group(gv, id@, 0) == spec_find_group(gv, id@, k as int),
        ensures
            0 <= k <= n,
            k as int == spec_find_group(gv, id@, 0),
            k < n ==> gv[k as int].0 == id@,
        decreases n - k,
    {
        if k == n {
            break;
        }
        if bytes_eq(&groups[k].id, id) {
            break;
        }
        k = k + 1;
    }
    if k < n {
        let mut g = groups.remove(k);
        let ghost pre_names = g.names.deep_view();
        g.names.push(name);
        proof {
            assert(g.names.deep_view() =~= pre_names.push(name@));
        }
        groups.insert(k, g);
        proof {
            assert(spec_groups_view(groups@) =~= spec_add_ref(gv, id@, name@));
        }
    } else {
        let mut names: Vec<String> = Vec::new();
        names.push(name);
        proof {
            assert(names.deep_view() =~= seq![name@]);
        }
        groups.push(RefGroup { id: clone_bytes(id), names });
        proof {
            assert(spec_groups_view(groups@) =~= spec_add_ref(gv, id@, name@));
        }
    }
}

/// Group an ordered ref list by target commit: each commit keeps the names
/// of the refs that point at it, in the order they were offered; commits
/// appear in order of their first ref.
pub fn group_decorations(refs: &Vec<RefTarget>) -> (r: Vec<RefGroup>)
    ensures
        spec_groups_view(r@) == spec_group_refs(spec_refs_view(refs@)),
{
    let ghost rv = spec_refs_view(refs@);
    let n: usize = refs.len();
    let mut groups: Vec<RefGroup> = Vec::new();
    let mut k: usize = 0;
    while k < n
        invariant
            n == refs@.len(),
            rv == spec_refs_view(refs@),
            0 <= k <= n,
            spec_groups_view(groups@) == spec_group_refs(rv.take(k as int)),
        decreases n - k,
    {
        add_ref(&mut groups, refs[k].name.clone(), &refs[k].id);
        proof {
            assert(rv.take(k + 1).drop_last() =~= rv.take(k as int));
            assert(rv.take(k + 1).last() == rv[k as int]);
        }
        k = k + 1;
    }
    proof {
        assert(rv.take(n as int) =~= rv);
    }
    groups
}

/// The ordered ref list the log decorates commits from: the head entry
/// first (`HEAD -> branch` when attached, bare `HEAD` otherwise), then the
/// local branches, the remote branches, and the tags under their `tag: `
/// prefix.
pub open spec fn spec_decoration_refs(
    head: Option<(Option<Seq<char>>, Seq<u8>)>,
    locals: Seq<(Seq<char>, Seq<u8>)>,
    remotes: Seq<(Seq<char>, Seq<u8>)>,
    tags: Seq<(Seq<char>, Seq<u8>)>,
) -> Seq<(Seq<char>, Seq<u8>)> {
    let head_part: Seq<(Seq<char>, Seq<u8>)> = match head {
        Option::None => Seq::empty(),
        Option::Some((Option::None, id)) => seq![(seq!['H', 'E', 'A', 'D'], id)],
        Option::Some((Option::Some(b), id)) => seq![(spec_head_arrow() + b, id)],
    };
    let tag_part = Seq::new(
        tags.len(),
        |i: int| (seq!['t', 'a', 'g', ':', ' '] + tags[i].0, tags[i].1),
    );
    head_part + locals + remotes + tag_part
}

/// Build the ordered ref list the log decorates commits from.
pub fn decoration_refs(
    head: &Option<HeadRef>,
    locals: &Vec<RefTarget>,
    remotes: &Vec<RefTarget>,
    tags: &Vec<RefTarget>,
) -> (r: Vec<RefTarget>)
    ensures
        spec_refs_view(r@) == spec_decoration_refs(
            match head {
                Option::Some(h) => Option::Some(
                    (
                        match &h.branch {
                            Option::Some(b) => Option::Some(b@),
                            Option::None => Option::<Seq<char>>::None,
                        },
                        h.id@,
                    ),
                ),
                Option::None => Option::None,
            },
            spec_refs_view(locals@),
            spec_refs_view(remotes@),
            spec_refs_view(tags@),
        ),
{
    proof {
        reveal_strlit("HEAD -> ");
        reveal_strlit("HEAD");
        reveal_strlit("tag: ");
        assert("HEAD -> "@ =~~= spec_head_arrow());
        assert("HEAD"@ =~~= seq!['H', 'E', 'A', 'D']);
        assert("tag: "@ =~~= seq!['t', 'a', 'g', ':', ' ']);
    }
    let mut out: Vec<RefTarget> = Vec::new();
    match head {
        Some(h) => {
            let name = match &h.branch {
                Some(b) => {
                    let mut s = String::from_str("HEAD -> ");
                    s.append(b.as_str());
                    s
                },
                None => String::from_str("HEAD"),
            };
            out.push(RefTarget { name, id: clone_bytes(&h.id) });
        },
        None => {},
    }
    let ghost head_done = spec_refs_view(out@);
    let ln: usize = locals.len();
    let mut k: usize = 0;
    while k < ln
        invariant
            ln == locals@.len(),
            0 <= k <= ln,
            spec_refs_view(out@) == head_done + spec_refs_view(locals@).take(k as int),
        decreases ln - k,
    {
        let nm = locals[k].name.clone();
        let idv = clone_bytes(&locals[k].id);
        let ghost nmv = nm@;
        let ghost idvv = idv@;
        let ghost pre = out@;
        out.push(RefTarget { name: nm, id: idv });
        proof {
            let lhs = spec_refs_view(out@);
            let rhs = head_done + spec_refs_view(locals@).take(k + 1);
            assert(nmv == locals@[k as int].name@);
            assert(idvv == locals@[k as int].id@);
            assert(spec_refs_view(pre).len() == pre.len());
            assert(spec_refs_view(pre).len() == head_done.len() + k);
            assert(out@.len() == pre.len() + 1);
            assert(lhs.len() == out@.len());
            assert(spec_refs_view(locals@).take(k + 1).len() == k + 1);
            assert(lhs.len() == rhs.len());
            assert forall|i: int| 0 <= i < lhs.len() implies lhs[i] == rhs[i] by {
                if i < pre.len() {
                    assert(out@[i] == pre[i]);
                    assert(lhs[i] == spec_refs_view(pre)[i]);
                    assert(rhs[i] == (head_done + spec_refs_view(locals@).take(k as int))[i]);
                } else {
                    assert(out@[i].name@ == nmv && out@[i].id@ == idvv);
                    assert(rhs[i] == spec_refs_view(locals@).take(k + 1)[i - head_done.len()]);
                    assert(rhs[i] == spec_refs_view(locals@)[k as int]);
                }
            }
            assert(lhs =~~= rhs);
        }
        k = k + 1;
    }
    proof {
        assert(spec_refs_view(locals@).take(ln as int) =~~= spec_refs_view(locals@));
    }
    let ghost locals_done = spec_refs_view(out@);
    let rn: usize = remotes.len();
    let mut j: usize = 0;
    while j < rn
        invariant
            rn == remotes@.len(),
            0 <= j <= rn,
            spec_refs_view(out@) == locals_done + spec_refs_view(remotes@).take(j as int),
        decreases rn - j,
    {
        let nm = remotes[j].name.clone();
        let idv = clone_bytes(&remotes[j].id);
        let ghost nmv = nm@;
        let ghost idvv = idv@;
        let ghost pre = out@;
        out.push(RefTarget { name: nm, id: idv });
        proof {
            let lhs = spec_refs_view(out@);
            let rhs = locals_done + spec_refs_view(remotes@).take(j + 1);
            assert(nmv == remotes@[j as int].name@);
            assert(idvv == remotes@[j as int].id@);
            assert(spec_refs_view(pre).len() == pre.len());
            assert(spec_refs_view(pre).len() == locals_done.len() + j);
            assert(out@.len() == pre.len() + 1);
            assert(lhs.len() == out@.len());
            assert(spec_refs_view(remotes@).take(j + 1).len() == j + 1);
            assert(lhs.len() == rhs.len());
            assert forall|i: int| 0 <= i < lhs.len() implies lhs[i] == rhs[i] by {
                if i < pre.len() {
                    assert(out@[i] == pre[i]);
                    assert(lhs[i] == spec_refs_view(pre)[i]);
                    assert(rhs[i] == (locals_done + spec_refs_view(remotes@).take(j as int))[i]);
                } else {
                    assert(out@[i].name@ == nmv && out@[i].id@ == idvv);
                    assert(rhs[i] == spec_refs_view(remotes@).take(j + 1)[i - locals_done.len()]);
                    assert(rhs[i] == spec_refs_view(remotes@)[j as int]);
                }
            }
            assert(lhs =~~= rhs);
        }
        j = j + 1;
    }
    proof {
        assert(spec_refs_view(remotes@).take(rn as int) =~~= spec_refs_view(remotes@));
    }
    let ghost remotes_done = spec_refs_view(out@);
    let tn: usize = tags.len();
    let mut t: usize = 0;
    let ghost tag_part = Seq::new(
        tags@.len(),
        |i: int| ((seq!['t', 'a', 'g', ':', ' '] + spec_refs_view(tags@)[i].0, spec_refs_view(
            tags@,
        )[i].1)),
    );
    while t < tn
        invariant
            tn == tags@.len(),
            "tag: "@ == seq!['t', 'a', 'g', ':', ' '],
            0 <= t <= tn,
            tag_part == Seq::new(
                tags@.len(),
                |i: int| ((seq!['t', 'a', 'g', ':', ' '] + spec_refs_view(tags@)[i].0,
                spec_refs_view(tags@)[i].1)),
            ),
            spec_refs_view(out@) == remotes_done + tag_part.take(t as int),
        decreases tn - t,
    {
        let mut name = String::from_str("tag: ");
        name.append(tags[t].name.as_str());
        let idv = clone_bytes(&tags[t].id);
        let ghost nmv = name@;
        let ghost idvv = idv@;
        let ghost pre = out@;
        out.push(RefTarget { name, id: idv });
        proof {
            let lhs = spec_refs_view(out@);
            let rhs = remotes_done + tag_part.take(t + 1);
            assert(nmv == seq!['t', 'a', 'g', ':', ' '] + tags@[t as int].name@);
            assert(idvv == tags@[t as int].id@);
            assert(spec_refs_view(pre).len() == pre.len());
            assert(spec_refs_view(pre).len() == remotes_done.len() + t);
            assert(out@.len() == pre.len() + 1);
            assert(lhs.len() == out@.len());
            assert(tag_part.take(t + 1).len() == t + 1);
            assert(lhs.len() == rhs.len());
            assert forall|i: int| 0 <= i < lhs.len() implies lhs[i] == rhs[i] by {
                if i < pre.len() {
                    assert(out@[i] == pre[i]);
                    assert(lhs[i] == spec_refs_view(pre)[i]);
                    assert(rhs[i] == (remotes_done + tag_part.take(t as int))[i]);
                } else {
                    assert(out@[i].name@ == nmv && out@[i].id@ == idvv);
                    assert(rhs[i] == tag_part.take(t + 1)[i - remotes_done.len()]);
                    assert(rhs[i] == tag_part[t as int]);
                    assert(tag_part[t as int].0 == seq!['t', 'a', 'g', ':', ' '] + spec_refs_view(
                        tags@,
                    )[t as int].0);
                }
            }
            assert(lhs =~~= rhs);
        }
        t = t + 1;
    }
    proof {
        assert(tag_part.take(tn as int) =~= tag_part);
        assert(spec_refs_view(out@) =~~= spec_decoration_refs(
            match head {
                Option::Some(h) => Option::Some(
                    (
                        match &h.branch {
                            Option::Some(b) => Option::Some(b@),
                            Option::None => Option::<Seq<char>>::None,
                        },
                        h.id@,
                    ),
                ),
                Option::None => Option::None,
            },
            spec_refs_view(locals@),
            spec_refs_view(remotes@),
            spec_refs_view(tags@),
        ));
    }
    out
}

} // verus!
