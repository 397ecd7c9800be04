//! Ahead/behind graph analysis: given two positions in the commit graph,
//! count how many commits are reachable from one but not the other, by a
//! reachability walk over parent edges.
//!
//! Commits are identified by dense indices into an adjacency table; the
//! caller loads the relevant portion of the commit graph and numbers the
//! commits it contains.

use vstd::pervasive::VecAdditionalExecFns;
use vstd::prelude::*;

verus! {

/// The parent edges of a loaded portion of the commit graph: `parents[i]`
/// holds the indices of commit `i`'s parents.
pub struct CommitGraph {
    pub parents: Vec<Vec<usize>>,
}

impl View for CommitGraph {
    type V = Seq<Seq<usize>>;

    open spec fn view(&self) -> Seq<Seq<usize>> {
        Seq::new(self.parents@.len(), |i: int| self.parents@[i]@)
    }
}

impl CommitGraph {
    /// Every parent index points back into the table.
    pub open spec fn wf(&self) -> bool {
        forall|i: int, j: int|
            0 <= i < self@.len() && 0 <= j < self@[i].len() ==> self@[i][j] < self@.len()
    }

    /// Check the parent table for dangling indices, so that unverified
    /// callers can establish `wf` before asking for counts.
    pub fn check_wf(&self) -> (r: bool)
        ensures
            r == self.wf(),
    {
        let n: usize = self.parents.len();
        let mut i: usize = 0;
        while i < n
            invariant
                n == self@.len(),
                0 <= i <= n,
                forall|v: int, j: int|
                    0 <= v < i && 0 <= j < self@[v].len() ==> self@[v][j] < n,
            decreases n - i,
        {
            let m: usize = self.parents[i].len();
            let mut j: usize = 0;
            while j < m
                invariant
                    n == self@.len(),
                    i < n,
                    m == self@[i as int].len(),
                    0 <= j <= m,
                    forall|v: int, jj: int|
                        0 <= v < i && 0 <= jj < self@[v].len() ==> self@[v][jj] < n,
                    forall|jj: int| 0 <= jj < j ==> self@[i as int][jj] < n,
                decreases m - j,
            {
                if self.parents[i][j] >= n {
                    return false;
                }
                j = j + 1;
            }
            i = i + 1;
        }
        true
    }
}

/// There is a parent edge from commit `a` to commit `b`.
pub open spec fn spec_edge(g: Seq<Seq<usize>>, a: int, b: int) -> bool {
    &&& 0 <= a < g.len()
    &&& 0 <= b < g.len()
    &&& g[a].contains(b as usize)
}

/// `p` is a walk along parent edges from `a` to `b`.
pub open spec fn spec_is_path(g: Seq<Seq<usize>>, p: Seq<int>, a: int, b: int) -> bool {
    &&& p.len() >= 1
    &&& p[0] == a
    &&& p[p.len() - 1] == b
    &&& forall|k: int| 0 <= k < p.len() - 1 ==> spec_edge(g, #[trigger] p[k], p[k + 1])
}

/// Commit `b` is an ancestor of commit `a` (or `a` itself): some walk along
/// parent edges leads from `a` to `b`.
pub open spec fn spec_reaches(g: Seq<Seq<usize>>, a: int, b: int) -> bool {
    exists|p: Seq<int>| spec_is_path(g, p, a, b)
}

/// Commit `v` lies in the ancestry of `a` but not in the ancestry of `b`.
pub open spec fn spec_only_reaches(g: Seq<Seq<usize>>, a: int, b: int, v: int) -> bool {
    spec_reaches(g, a, v) && !spec_reaches(g, b, v)
}

/// How many of the commits `0 .. n` lie in the ancestry of `a` but not of `b`.
pub open spec fn count_only_reaches(g: Seq<Seq<usize>>, a: int, b: int, n: int) -> int
    decreases n,
{
    if n <= 0 {
        0
    } else {
        count_only_reaches(g, a, b, n - 1) + (if spec_only_reaches(g, a, b, n - 1) {
            1int
        } else {
            0int
        })
    }
}

/// How many of the first `n` positions are marked in `a` but not in `b`.
pub open spec fn count_marked_diff(a: Seq<bool>, b: Seq<bool>, n: int) -> int
    decreases n,
{
    if n <= 0 {
        0
    } else {
        count_marked_diff(a, b, n - 1) + (if a[n - 1] && !b[n - 1] {
            1int
        } else {
            0int
        })
    }
}

/// How many of the first `n` positions are marked.
pub open spec fn count_marked(s: Seq<bool>, n: int) -> int
    decreases n,
{
    if n <= 0 {
        0
    } else {
        count_marked(s, n - 1) + (if s[n - 1] {
            1int
        } else {
            0int
        })
    }
}

proof fn lemma_count_marked_bound(s: Seq<bool>, n: int)
    requires
        n >= 0,
    ensures
        0 <= count_marked(s, n) <= n,
    decreases n,
{
    if n > 0 {
        lemma_count_marked_bound(s, n - 1);
    }
}

proof fn lemma_count_marked_update(s: Seq<bool>, i: int, n: int)
    requires
        0 <= i < n <= s.len(),
        !s[i],
    ensures
        count_marked(s.update(i, true), n) == count_marked(s, n) + 1,
    decreases n,
{
    if n - 1 == i {
        assert forall|v: int| 0 <= v < n - 1 implies s.update(i, true)[v] == s[v] by {}
        lemma_count_marked_same(s.update(i, true), s, n - 1);
    } else {
        lemma_count_marked_update(s, i, n - 1);
    }
}

proof fn lemma_count_marked_same(a: Seq<bool>, b: Seq<bool>, n: int)
    requires
        forall|v: int| 0 <= v < n ==> a[v] == b[v],
    ensures
        count_marked(a, n) == count_marked(b, n),
    decreases n,
{
    if n > 0 {
        lemma_count_marked_same(a, b, n - 1);
    }
}

proof fn lemma_count_marked_false(s: Seq<bool>, n: int)
    requires
        forall|v: int| 0 <= v < n ==> !s[v],
    ensures
        count_marked(s, n) == 0,
    decreases n,
{
    if n > 0 {
        lemma_count_marked_false(s, n - 1);
    }
}

/// When the marks agree pointwise with the reachability difference, the two
/// counts agree.
proof fn lemma_count_agree(
    g: Seq<Seq<usize>>,
    a: int,
    b: int,
    ma: Seq<bool>,
    mb: Seq<bool>,
    n: int,
)
    requires
        forall|v: int| 0 <= v < n ==> ((ma[v] && !mb[v]) <==> spec_only_reaches(g, a, b, v)),
    ensures
        count_marked_diff(ma, mb, n) == count_only_reaches(g, a, b, n),
    decreases n,
{
    if n > 0 {
        lemma_count_agree(g, a, b, ma, mb, n - 1);
    }
}

/// A count over a vacuous condition is zero. Used for the short-circuit when
/// both graph positions are the same commit.
proof fn lemma_count_only_reaches_self(g: Seq<Seq<usize>>, a: int, n: int)
    ensures
        count_only_reaches(g, a, a, n) == 0,
    decreases n,
{
    if n > 0 {
        lemma_count_only_reaches_self(g, a, n - 1);
    }
}

/// Two pointwise-equal reachability differences count the same.
proof fn lemma_count_only_congruence(
    g: Seq<Seq<usize>>,
    a1: int,
    b1: int,
    a2: int,
    b2: int,
    n: int,
)
    requires
        forall|v: int|
            0 <= v < n ==> (spec_only_reaches(g, a1, b1, v) <==> spec_only_reaches(g, a2, b2, v)),
    ensures
        count_only_reaches(g, a1, b1, n) == count_only_reaches(g, a2, b2, n),
    decreases n,
{
    if n > 0 {
        lemma_count_only_congruence(g, a1, b1, a2, b2, n - 1);
    }
}

/// For two histories whose shared ancestry is exactly the ancestry of a
/// merge base, the ahead count equals the count of commits reachable from
/// the local position but not from the merge base, and the behind count the
/// symmetric count from the upstream position.
pub proof fn lemma_ahead_behind_excludes_base_ancestry(
    g: Seq<Seq<usize>>,
    local: int,
    upstream: int,
    base: int,
    n: int,
)
    requires
        forall|v: int|
            #![trigger spec_reaches(g, base, v)]
            (spec_reaches(g, local, v) && spec_reaches(g, upstream, v)) <==> spec_reaches(
                g,
                base,
                v,
            ),
    ensures
        count_only_reaches(g, local, upstream, n) == count_only_reaches(g, local, base, n),
        count_only_reaches(g, upstream, local, n) == count_only_reaches(g, upstream, base, n),
{
    assert forall|v: int| 0 <= v < n implies (spec_only_reaches(g, local, upstream, v)
        <==> spec_only_reaches(g, local, base, v)) by {
        if spec_reaches(g, local, v) {
            if spec_reaches(g, base, v) {
                assert(spec_reaches(g, upstream, v));
            }
            if spec_reaches(g, upstream, v) {
                assert(spec_reaches(g, base, v));
            }
        }
    }
    assert forall|v: int| 0 <= v < n implies (spec_only_reaches(g, upstream, local, v)
        <==> spec_only_reaches(g, upstream, base, v)) by {
        if spec_reaches(g, upstream, v) {
            if spec_reaches(g, base, v) {
                assert(spec_reaches(g, local, v));
            }
            if spec_reaches(g, local, v) {
                assert(spec_reaches(g, base, v));
            }
        }
    }
    lemma_count_only_congruence(g, local, upstream, local, base, n);
    lemma_count_only_congruence(g, upstream, local, upstream, base, n);
}

/// Every commit reaches itself, by the one-element walk.
pub proof fn lemma_reaches_self(g: Seq<Seq<usize>>, a: int)
    ensures
        spec_reaches(g, a, a),
{
    let p: Seq<int> = seq![a];
    assert(spec_is_path(g, p, a, a));
}

/// Reachability extends along a parent edge.
pub proof fn lemma_reaches_step(g: Seq<Seq<usize>>, a: int, v: int, w: int)
    requires
        spec_reaches(g, a, v),
        spec_edge(g, v, w),
    ensures
        spec_reaches(g, a, w),
{
    let p = choose|p: Seq<int>| spec_is_path(g, p, a, v);
    let q = p.push(w);
    assert forall|k: int| 0 <= k < q.len() - 1 implies spec_edge(g, #[trigger] q[k], q[k + 1]) by {
        if k < p.len() - 1 {
            assert(spec_edge(g, p[k], p[k + 1]));
        } else {
            assert(q[k] == v && q[k + 1] == w);
        }
    }
    assert(spec_is_path(g, q, a, w));
}

/// A set of marks that contains `a` and is closed under parent edges covers
/// the endpoint of every walk that starts at `a`.
proof fn lemma_closed_covers_path(
    g: Seq<Seq<usize>>,
    marks: Seq<bool>,
    p: Seq<int>,
    a: int,
    b: int,
)
    requires
        marks.len() == g.len(),
        0 <= a < g.len(),
        marks[a],
        forall|v: int, w: int| 0 <= v < g.len() && marks[v] && spec_edge(g, v, w) ==> marks[w],
        spec_is_path(g, p, a, b),
    ensures
        0 <= b < g.len() && marks[b],
    decreases p.len(),
{
    if p.len() == 1 {
    } else {
        assert(spec_edge(g, p[0], p[1]));
        let q = p.subrange(1, p.len() as int);
        assert(q[q.len() - 1] == b);
        assert forall|k: int| 0 <= k < q.len() - 1 implies spec_edge(g, #[trigger] q[k], q[k + 1]) by {
            assert(q[k] == p[k + 1] && q[k + 1] == p[k + 2]);
            assert(spec_edge(g, p[k + 1], p[k + 2]));
        }
        assert(spec_is_path(g, q, p[1], b));
        lemma_closed_covers_path(g, marks, q, p[1], b);
    }
}

/// Mark every commit reachable from `start` (including `start` itself) with a
/// worklist walk over parent edges.
fn ancestors(g: &CommitGraph, start: usize) -> (marks: Vec<bool>)
    requires
        g.wf(),
        start < g@.len(),
    ensures
        marks@.len() == g@.len(),
        forall|v: int| 0 <= v < g@.len() ==> (marks@[v] <==> spec_reaches(g@, start as int, v)),
{
    let n: usize = g.parents.len();
    let mut marks: Vec<bool> = Vec::new();
    let mut k: usize = 0;
    while k < n
        invariant
            0 <= k <= n,
            marks@.len() == k,
            forall|v: int| 0 <= v < k ==> !marks@[v],
        decreases n - k,
    {
        marks.push(false);
        k = k + 1;
    }
    let ghost empty_marks = marks@;
    let mut stack: Vec<usize> = Vec::new();
    let mut visited: usize = 1;
    marks.set(start, true);
    stack.push(start);
    proof {
        lemma_reaches_self(g@, start as int);
        lemma_count_marked_false(empty_marks, n as int);
        lemma_count_marked_update(empty_marks, start as int, n as int);
        assert(marks@ == empty_marks.update(start as int, true));
        assert(stack@[0] == start);
        assert(stack@.contains(start));
        assert forall|v: int| 0 <= v < n && marks@[v] implies v == start as int by {}
    }
    loop
        invariant
            g.wf(),
            n == g@.len(),
            start < n,
            marks@.len() == n,
            visited == count_marked(marks@, n as int),
            visited <= n,
            marks@[start as int],
            forall|s: int| 0 <= s < stack@.len() ==> stack@[s] < n && marks@[stack@[s] as int],
            forall|s1: int, s2: int|
                0 <= s1 < s2 < stack@.len() ==> stack@[s1] != stack@[s2],
            forall|v: int| 0 <= v < n && marks@[v] ==> spec_reaches(g@, start as int, v),
            forall|v: int, w: int|
                0 <= v < n && marks@[v] && !stack@.contains(v as usize) && spec_edge(g@, v, w)
                    ==> marks@[w],
        ensures
            marks@.len() == n,
            marks@[start as int],
            forall|v: int| 0 <= v < n && marks@[v] ==> spec_reaches(g@, start as int, v),
            forall|v: int, w: int|
                0 <= v < n && marks@[v] && spec_edge(g@, v, w) ==> marks@[w],
        decreases n - visited, stack@.len(),
    {
        if stack.len() == 0 {
            proof {
                assert forall|v: int, w: int|
                    0 <= v < n && marks@[v] && spec_edge(g@, v, w) implies marks@[w] by {
                    assert(!stack@.contains(v as usize));
                }
            }
            break;
        }
        let ghost old_visited = visited as int;
        let ghost old_stack = stack@;
        let v: usize = stack.pop().unwrap();
        proof {
            assert(old_stack[old_stack.len() - 1] == v);
            assert(stack@ == old_stack.subrange(0, old_stack.len() - 1));
            assert(!stack@.contains(v)) by {
                if stack@.contains(v) {
                    let s = choose|s: int| 0 <= s < stack@.len() && stack@[s] == v;
                    assert(old_stack[s] == v);
                }
            }
            assert forall|u: int, w: int|
                0 <= u < n && u != v as int && marks@[u] && !stack@.contains(u as usize)
                    && spec_edge(g@, u, w) implies marks@[w] by {
                assert(!old_stack.contains(u as usize)) by {
                    if old_stack.contains(u as usize) {
                        let s = choose|s: int|
                            0 <= s < old_stack.len() && old_stack[s] == u as usize;
                        if s < old_stack.len() - 1 {
                            assert(stack@[s] == u as usize);
                        }
                    }
                }
            }
        }
        let m: usize = g.parents[v].len();
        let mut j: usize = 0;
        while j < m
            invariant
                g.wf(),
                n == g@.len(),
                start < n,
                v < n,
                m == g@[v as int].len(),
                0 <= j <= m,
                marks@.len() == n,
                visited == count_marked(marks@, n as int),
                visited <= n,
                old_visited <= visited,
                old_stack.len() >= 1,
                old_visited == visited ==> stack@ == old_stack.subrange(0, old_stack.len() - 1),
                marks@[start as int],
                marks@[v as int],
                !stack@.contains(v),
                forall|s: int| 0 <= s < stack@.len() ==> stack@[s] < n && marks@[stack@[s] as int],
                forall|s1: int, s2: int|
                    0 <= s1 < s2 < stack@.len() ==> stack@[s1] != stack@[s2],
                forall|u: int| 0 <= u < n && marks@[u] ==> spec_reaches(g@, start as int, u),
                forall|u: int, w: int|
                    0 <= u < n && u != v as int && marks@[u] && !stack@.contains(u as usize)
                        && spec_edge(g@, u, w) ==> marks@[w],
                forall|jj: int| 0 <= jj < j ==> marks@[g@[v as int][jj] as int],
            decreases m - j,
        {
            let w: usize = g.parents[v][j];
            proof {
                assert(g@[v as int][j as int] == w);
                assert(g@[v as int].contains(w));
                assert(spec_edge(g@, v as int, w as int));
            }
            if !marks[w] {
                let ghost pre_marks = marks@;
                let ghost pre_stack = stack@;
                proof {
                    lemma_reaches_step(g@, start as int, v as int, w as int);
                    lemma_count_marked_update(marks@, w as int, n as int);
                    lemma_count_marked_bound(marks@.update(w as int, true), n as int);
                }
                marks.set(w, true);
                stack.push(w);
                visited = visited + 1;
                proof {
                    assert(stack@ == pre_stack.push(w));
                    assert(stack@[stack@.len() - 1] == w);
                    // pushing the freshly marked parent keeps the stack duplicate-free
                    // and keeps every non-pending marked node fully expanded
                    assert(!pre_stack.contains(w)) by {
                        if pre_stack.contains(w) {
                            let s = choose|s: int|
                                0 <= s < pre_stack.len() && pre_stack[s] == w;
                            assert(pre_marks[pre_stack[s] as int]);
                        }
                    }
                    assert forall|s1: int, s2: int|
                        0 <= s1 < s2 < stack@.len() implies stack@[s1] != stack@[s2] by {
                        if s2 < stack@.len() - 1 {
                            assert(pre_stack[s1] == stack@[s1] && pre_stack[s2] == stack@[s2]);
                        } else {
                            assert(stack@[s2] == w && pre_stack[s1] == stack@[s1]);
                        }
                    }
                    assert forall|u: int, ww: int|
                        0 <= u < n && u != v as int && marks@[u] && !stack@.contains(u as usize)
                            && spec_edge(g@, u, ww) implies marks@[ww] by {
                        assert(!pre_stack.contains(u as usize)) by {
                            if pre_stack.contains(u as usize) {
                                let s = choose|s: int|
                                    0 <= s < pre_stack.len() && pre_stack[s] == u as usize;
                                assert(stack@[s] == u as usize);
                            }
                        }
                        if u == w as int {
                            assert(stack@.contains(w));
                        } else {
                            assert(pre_marks[u]);
                        }
                    }
                }
            }
            j = j + 1;
        }
        proof {
            // the popped node is now fully expanded: every parent is marked
            assert forall|w: int| spec_edge(g@, v as int, w) implies marks@[w] by {
                assert(g@[v as int].contains(w as usize));
                let jj = choose|jj: int|
                    0 <= jj < g@[v as int].len() && g@[v as int][jj] == w as usize;
                assert(marks@[g@[v as int][jj] as int]);
            }
        }
    }
    proof {
        assert forall|b: int| 0 <= b < n && spec_reaches(g@, start as int, b) implies marks@[b] by {
            let p = choose|p: Seq<int>| spec_is_path(g@, p, start as int, b);
            lemma_closed_covers_path(g@, marks@, p, start as int, b);
        }
    }
    marks
}

/// Count how many commits are reachable from `local` but not from `upstream`
/// (`ahead`) and how many are reachable from `upstream` but not from `local`
/// (`behind`). Two equal positions are never ahead or behind each other.
pub fn ahead_behind(g: &CommitGraph, local: usize, upstream: usize) -> (r: (usize, usize))
    requires
        g.wf(),
        local < g@.len(),
        upstream < g@.len(),
    ensures
        r.0 == count_only_reaches(g@, local as int, upstream as int, g@.len() as int),
        r.1 == count_only_reaches(g@, upstream as int, local as int, g@.len() as int),
        local == upstream ==> r.0 == 0 && r.1 == 0,
{
    let n: usize = g.parents.len();
    if local == upstream {
        proof {
            lemma_count_only_reaches_self(g@, local as int, n as int);
        }
        return (0, 0);
    }
    let local_marks = ancestors(g, local);
    let upstream_marks = ancestors(g, upstream);
    let ahead = count_diff(&local_marks, &upstream_marks);
    let behind = count_diff(&upstream_marks, &local_marks);
    proof {
        lemma_count_agree(
            g@,
            local as int,
            upstream as int,
            local_marks@,
            upstream_marks@,
            n as int,
        );
        lemma_count_agree(
            g@,
            upstream as int,
            local as int,
            upstream_marks@,
            local_marks@,
            n as int,
        );
    }
    (ahead, behind)
}

/// Count the positions marked in `a` but not in `b`.
fn count_diff(a: &Vec<bool>, b: &Vec<bool>) -> (c: usize)
    requires
        a@.len() == b@.len(),
    ensures
        c == count_marked_diff(a@, b@, a@.len() as int),
{
    let n: usize = a.len();
    let mut c: usize = 0;
    let mut k: usize = 0;
    while k < n
        invariant
            n == a@.len(),
            n == b@.len(),
            0 <= k <= n,
            c == count_marked_diff(a@, b@, k as int),
            c <= k,
        decreases n - k,
    {
        if a[k] && !b[k] {
            c = c + 1;
        }
        k = k + 1;
    }
    c
}

} // verus!
