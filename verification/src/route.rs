//! Routing over a planet graph given as adjacency lists: the first hop of a
//! breadth-first route.

use vstd::prelude::*;

verus! {

broadcast use vstd::seq_lib::lemma_seq_contains_after_push;

/// `y` is listed among the neighbours of `x`.
pub open spec fn step(graph: Seq<(u32, Vec<u32>)>, x: u32, y: u32) -> bool {
    exists|i: int| 0 <= i < graph.len() && graph[i].0 == x && (#[trigger] graph[i].1@).contains(y)
}

/// Every planet has at most one adjacency entry.
pub open spec fn keys_unique(graph: Seq<(u32, Vec<u32>)>) -> bool {
    forall|i: int, j: int| 0 <= i < graph.len() && 0 <= j < graph.len() && i != j ==> graph[i].0 != graph[j].0
}

/// `p` is a walk: each planet is followed by one of its neighbours.
pub open spec fn is_walk(graph: Seq<(u32, Vec<u32>)>, p: Seq<u32>) -> bool {
    &&& p.len() >= 1
    &&& forall|i: int, j: int| 0 <= i && j == i + 1 && j < p.len() ==> #[trigger] step(graph, p[i], #[trigger] p[j])
}

/// Some walk leads from `a` to `b`.
pub open spec fn reachable(graph: Seq<(u32, Vec<u32>)>, a: u32, b: u32) -> bool {
    exists|p: Seq<u32>| #[trigger] is_walk(graph, p) && p[0] == a && p.last() == b
}

/// `p` is a walk along the relation `adj`.
pub open spec fn walk_by(adj: spec_fn(u32, u32) -> bool, p: Seq<u32>) -> bool {
    &&& p.len() >= 1
    &&& forall|i: int, j: int| 0 <= i && j == i + 1 && j < p.len() ==> #[trigger] adj(p[i], #[trigger] p[j])
}

/// Some walk along `adj` leads from `a` to `b`.
pub open spec fn reachable_by(adj: spec_fn(u32, u32) -> bool, a: u32, b: u32) -> bool {
    exists|p: Seq<u32>| #[trigger] walk_by(adj, p) && p[0] == a && p.last() == b
}

/// Adjacency lists that list exactly the pairs of `adj` give the same
/// reachability as `adj`.
pub proof fn lemma_reachable_by_lists(graph: Seq<(u32, Vec<u32>)>, adj: spec_fn(u32, u32) -> bool, a: u32, b: u32)
    requires
        forall|x: u32, y: u32| #[trigger] step(graph, x, y) == adj(x, y),
    ensures
        reachable(graph, a, b) == reachable_by(adj, a, b),
{
    if reachable(graph, a, b) {
        let p = choose|p: Seq<u32>| #[trigger] is_walk(graph, p) && p[0] == a && p.last() == b;
        assert forall|i: int, j: int| 0 <= i && j == i + 1 && j < p.len() implies #[trigger] adj(p[i], #[trigger] p[j]) by {
            assert(step(graph, p[i], p[j]));
        }
        assert(walk_by(adj, p));
    }
    if reachable_by(adj, a, b) {
        let p = choose|p: Seq<u32>| #[trigger] walk_by(adj, p) && p[0] == a && p.last() == b;
        assert forall|i: int, j: int| 0 <= i && j == i + 1 && j < p.len() implies #[trigger] step(graph, p[i], #[trigger] p[j]) by {
            assert(adj(p[i], p[j]));
        }
        assert(is_walk(graph, p));
    }
}

/// A walk along `adj` from `x` to `to` that, after one step from `from`, is
/// as short as any walk along `adj` from `from` to `to`.
pub open spec fn shortest_via_by(adj: spec_fn(u32, u32) -> bool, from: u32, x: u32, to: u32) -> bool {
    exists|q: Seq<u32>| #[trigger] walk_by(adj, q) && q[0] == x && q.last() == to
        && forall|p: Seq<u32>| #[trigger] walk_by(adj, p) && p[0] == from && p.last() == to ==> q.len() + 1 <= p.len()
}

proof fn lemma_walks_agree(graph: Seq<(u32, Vec<u32>)>, adj: spec_fn(u32, u32) -> bool, p: Seq<u32>)
    requires
        forall|x: u32, y: u32| #[trigger] step(graph, x, y) == adj(x, y),
    ensures
        is_walk(graph, p) == walk_by(adj, p),
{
    if is_walk(graph, p) {
        assert forall|i: int, j: int| 0 <= i && j == i + 1 && j < p.len() implies #[trigger] adj(p[i], #[trigger] p[j]) by {
            assert(step(graph, p[i], p[j]));
        }
    }
    if walk_by(adj, p) {
        assert forall|i: int, j: int| 0 <= i && j == i + 1 && j < p.len() implies #[trigger] step(graph, p[i], #[trigger] p[j]) by {
            assert(adj(p[i], p[j]));
        }
    }
}

/// A shortest first hop over adjacency lists is one over the relation they
/// list.
pub proof fn lemma_shortest_by_lists(graph: Seq<(u32, Vec<u32>)>, adj: spec_fn(u32, u32) -> bool, from: u32, x: u32, to: u32)
    requires
        forall|a: u32, b: u32| #[trigger] step(graph, a, b) == adj(a, b),
        shortest_via(graph, from, x, to),
    ensures
        shortest_via_by(adj, from, x, to),
{
    let q = choose|q: Seq<u32>| #[trigger] is_walk(graph, q) && q[0] == x && q.last() == to
        && forall|p: Seq<u32>| #[trigger] is_walk(graph, p) && p[0] == from && p.last() == to ==> q.len() + 1 <= p.len();
    lemma_walks_agree(graph, adj, q);
    assert forall|p: Seq<u32>| #[trigger] walk_by(adj, p) && p[0] == from && p.last() == to implies q.len() + 1 <= p.len() by {
        lemma_walks_agree(graph, adj, p);
    }
    assert(walk_by(adj, q));
}

proof fn lemma_walk_push(graph: Seq<(u32, Vec<u32>)>, p: Seq<u32>, y: u32)
    requires
        is_walk(graph, p),
        step(graph, p.last(), y),
    ensures
        is_walk(graph, p.push(y)),
        p.push(y)[0] == p[0],
        p.push(y).last() == y,
{
    let q = p.push(y);
    assert forall|i: int, j: int| 0 <= i && j == i + 1 && j < q.len() implies #[trigger] step(graph, q[i], #[trigger] q[j]) by {
        if j < p.len() {
            assert(q[i] == p[i] && q[j] == p[j]);
            assert(step(graph, p[i], p[j]));
        } else {
            assert(q[i] == p.last());
        }
    }
}

proof fn lemma_walk_prepend(graph: Seq<(u32, Vec<u32>)>, x: u32, p: Seq<u32>)
    requires
        is_walk(graph, p),
        step(graph, x, p[0]),
    ensures
        is_walk(graph, seq![x] + p),
        (seq![x] + p)[0] == x,
        (seq![x] + p).last() == p.last(),
{
    let q = seq![x] + p;
    assert forall|i: int, j: int| 0 <= i && j == i + 1 && j < q.len() implies #[trigger] step(graph, q[i], #[trigger] q[j]) by {
        if i == 0 {
            assert(q[j] == p[0]);
        } else {
            assert(q[i] == p[i - 1] && q[j] == p[j - 1]);
            assert(step(graph, p[i - 1], p[j - 1]));
        }
    }
}

proof fn lemma_closed_contains_walk(graph: Seq<(u32, Vec<u32>)>, visited: Seq<u32>, p: Seq<u32>)
    requires
        is_walk(graph, p),
        visited.contains(p[0]),
        forall|v: u32, w: u32| visited.contains(v) && #[trigger] step(graph, v, w) ==> visited.contains(w),
    ensures
        visited.contains(p.last()),
    decreases p.len(),
{
    if p.len() > 1 {
        let q = p.drop_last();
        assert forall|i: int, j: int| 0 <= i && j == i + 1 && j < q.len() implies #[trigger] step(graph, q[i], #[trigger] q[j]) by {
            assert(q[i] == p[i] && q[j] == p[j]);
            assert(step(graph, p[i], p[j]));
        }
        lemma_closed_contains_walk(graph, visited, q);
        let i = p.len() - 2;
        let j = p.len() - 1;
        assert(step(graph, p[i], p[j]));
    }
}

/// Every walk of at most `d` steps from `from` ends at a planet of `visited`.
spec fn within(graph: Seq<(u32, Vec<u32>)>, from: u32, d: nat, visited: Seq<u32>) -> bool {
    forall|p: Seq<u32>| #[trigger] is_walk(graph, p) && p[0] == from && p.len() <= d + 1 ==> visited.contains(p.last())
}

/// A walk from `x` to `to` that, after one step from `from`, is as short as
/// any walk from `from` to `to`.
pub open spec fn shortest_via(graph: Seq<(u32, Vec<u32>)>, from: u32, x: u32, to: u32) -> bool {
    exists|q: Seq<u32>| #[trigger] is_walk(graph, q) && q[0] == x && q.last() == to
        && forall|p: Seq<u32>| #[trigger] is_walk(graph, p) && p[0] == from && p.last() == to ==> q.len() + 1 <= p.len()
}

proof fn lemma_walk_drop_last(graph: Seq<(u32, Vec<u32>)>, p: Seq<u32>)
    requires
        is_walk(graph, p),
        p.len() >= 2,
    ensures
        is_walk(graph, p.drop_last()),
        p.drop_last()[0] == p[0],
        step(graph, p.drop_last().last(), p.last()),
{
    let q = p.drop_last();
    assert forall|i: int, j: int| 0 <= i && j == i + 1 && j < q.len() implies #[trigger] step(graph, q[i], #[trigger] q[j]) by {
        assert(q[i] == p[i] && q[j] == p[j]);
        assert(step(graph, p[i], p[j]));
    }
    let i = p.len() - 2;
    let j = p.len() - 1;
    assert(step(graph, p[i], p[j]));
}

proof fn lemma_within_grows(g: Seq<(u32, Vec<u32>)>, from: u32, d: nat, a: Seq<u32>, b: Seq<u32>)
    requires
        within(g, from, d, a),
        forall|v: u32| a.contains(v) ==> b.contains(v),
    ensures
        within(g, from, d, b),
{
    assert forall|p: Seq<u32>| #[trigger] is_walk(g, p) && p[0] == from && p.len() <= d + 1 implies b.contains(p.last()) by {
        assert(a.contains(p.last()));
    }
}

/// Once every planet within `d` steps is visited and the queue holds no
/// planet closer than `d + 1` steps from its head on, the planets within
/// `d + 1` steps are visited too: each is a neighbour of one within `d`,
/// whose neighbours were all visited when it was expanded.
proof fn lemma_advance_within(
    g: Seq<(u32, Vec<u32>)>,
    from: u32,
    visited: Seq<u32>,
    queue: Seq<(u32, u32)>,
    paths: Seq<Seq<u32>>,
    expanded: Seq<bool>,
    h: int,
    d: nat,
)
    requires
        within(g, from, d, visited),
        0 <= h < queue.len(),
        queue.len() == paths.len(),
        expanded.len() == g.len(),
        forall|q: int| h <= q < queue.len() ==> (#[trigger] paths[q]).len() >= d + 1,
        forall|q: int, p: Seq<u32>| #![trigger is_walk(g, p), queue[q]]
            0 <= q < queue.len() && is_walk(g, p) && p[0] == from && p.last() == queue[q].0 ==> paths[q].len() + 1 <= p.len(),
        forall|v: u32| #[trigger] visited.contains(v) ==> v == from
            || (exists|q: int| h <= q < queue.len() && queue[q].0 == v)
            || (forall|m: int| 0 <= m < g.len() && g[m].0 == v ==> expanded[m]),
        forall|m: int, w: u32| 0 <= m < g.len() && expanded[m] && #[trigger] g[m].1@.contains(w) ==> visited.contains(w),
        forall|m: int| 0 <= m < g.len() && g[m].0 == from ==> expanded[m],
    ensures
        within(g, from, d + 1, visited),
{
    assert forall|p: Seq<u32>| #[trigger] is_walk(g, p) && p[0] == from && p.len() <= d + 2 implies visited.contains(p.last()) by {
        if p.len() > d + 1 {
            lemma_walk_drop_last(g, p);
            let pre = p.drop_last();
            assert(is_walk(g, pre));
            let v = pre.last();
            assert(visited.contains(v));
            if v != from && exists|q: int| h <= q < queue.len() && queue[q].0 == v {
                let q = choose|q: int| h <= q < queue.len() && queue[q].0 == v;
                assert(paths[q].len() + 1 <= pre.len());
                assert(paths[q].len() >= d + 1);
                assert(false);
            }
            assert(step(g, v, p.last()));
            let m = choose|m: int| 0 <= m < g.len() && g[m].0 == v && (#[trigger] g[m].1@).contains(p.last());
            assert(expanded[m]);
        }
    }
}

/// Number of `false` entries.
spec fn count_false(s: Seq<bool>) -> nat
    decreases s.len(),
{
    if s.len() == 0 {
        0
    } else {
        count_false(s.drop_last()) + if s.last() { 0nat } else { 1nat }
    }
}

proof fn lemma_count_false_set(s: Seq<bool>, i: int)
    requires
        0 <= i < s.len(),
        !s[i],
    ensures
        count_false(s.update(i, true)) + 1 == count_false(s),
    decreases s.len(),
{
    let t = s.update(i, true);
    if i < s.len() - 1 {
        assert(t.drop_last() =~= s.drop_last().update(i, true));
        lemma_count_false_set(s.drop_last(), i);
    } else {
        assert(t.drop_last() =~= s.drop_last());
    }
}

/// Index of the adjacency entry of `x`, if it has one.
fn entry_of(graph: &Vec<(u32, Vec<u32>)>, x: u32) -> (r: Option<usize>)
    ensures
        r matches Some(i) ==> i < graph@.len() && graph@[i as int].0 == x,
        r is None ==> forall|i: int| 0 <= i < graph@.len() ==> graph@[i].0 != x,
{
    let mut i: usize = 0;
    while i < graph.len()
        invariant
            i <= graph@.len(),
            forall|k: int| 0 <= k < i ==> graph@[k].0 != x,
        decreases graph@.len() - i,
    {
        if graph[i].0 == x {
            return Some(i);
        }
        i = i + 1;
    }
    None
}

fn seq_has(v: &Vec<u32>, x: u32) -> (b: bool)
    ensures
        b == v@.contains(x),
{
    let mut i: usize = 0;
    while i < v.len()
        invariant
            i <= v@.len(),
            forall|k: int| 0 <= k < i ==> v@[k] != x,
        decreases v@.len() - i,
    {
        if v[i] == x {
            return true;
        }
        i = i + 1;
    }
    false
}

/// The first hop from `from` toward `to` on a breadth-first route, or `None`
/// when already there or when no walk leads to `to`.
///
/// The hop returned starts a shortest route. Neighbours are explored in the
/// order the adjacency lists give them, which breaks ties among several
/// shortest routes; the contract does not say which one is taken.
pub fn next_hop(graph: &Vec<(u32, Vec<u32>)>, from: u32, to: u32) -> (h: Option<u32>)
    requires
        keys_unique(graph@),
    ensures
        h is None <==> (from == to || !reachable(graph@, from, to)),
        h matches Some(x) ==> step(graph@, from, x) && reachable(graph@, x, to),
        from != to && step(graph@, from, to) ==> h == Some(to),
        h matches Some(x) ==> shortest_via(graph@, from, x, to),
{
    if from == to {
        return None;
    }
    let ghost g = graph@;
    let mut visited: Vec<u32> = Vec::new();
    visited.push(from);
    let mut queue: Vec<(u32, u32)> = Vec::new();
    let ghost mut paths: Seq<Seq<u32>> = Seq::empty();
    let mut expanded: Vec<bool> = Vec::new();
    let mut e: usize = 0;
    while e < graph.len()
        invariant
            e <= graph@.len(),
            expanded@.len() == e,
            forall|k: int| 0 <= k < e ==> !expanded@[k],
        decreases graph@.len() - e,
    {
        expanded.push(false);
        e = e + 1;
    }

    // Neighbours of the starting planet.
    match entry_of(graph, from) {
        Some(i0) => {
            let ns = &graph[i0].1;
            let mut k: usize = 0;
            while k < ns.len()
                invariant
                    g == graph@,
                    keys_unique(g),
                    from != to,
                    i0 < g.len(),
                    g[i0 as int].0 == from,
                    *ns == g[i0 as int].1,
                    k <= ns@.len(),
                    expanded@.len() == g.len(),
                    forall|m: int| 0 <= m < g.len() ==> !expanded@[m],
                    visited@.len() >= 1,
                    visited@[0] == from,
                    !visited@.contains(to),
                    forall|m: int| 0 <= m < k ==> visited@.contains(#[trigger] ns@[m]),
                    forall|m: int| 0 <= m < k ==> #[trigger] ns@[m] != to,
                    queue@.len() == paths.len(),
                    forall|q: int| 0 <= q < queue@.len() ==> visited@.contains(#[trigger] queue@[q].0),
                    forall|v: u32| #[trigger] visited@.contains(v) ==> v == from || exists|q: int| 0 <= q < queue@.len() && queue@[q].0 == v,
                    forall|q: int| 0 <= q < queue@.len() ==> {
                        &&& is_walk(g, #[trigger] paths[q])
                        &&& paths[q][0] == queue@[q].1
                        &&& paths[q].last() == queue@[q].0
                        &&& step(g, from, queue@[q].1)
                    },
                    forall|q: int| 0 <= q < queue@.len() ==> (#[trigger] paths[q]).len() == 1,
                    forall|q: int| 0 <= q < queue@.len() ==> (#[trigger] queue@[q]).0 != from,
                decreases ns@.len() - k,
            {
                let n = ns[k];
                proof {
                    assert(g[i0 as int].1@.contains(n));
                    assert(step(g, from, n));
                }
                if n == to {
                    proof {
                        let p = seq![to];
                        assert(is_walk(g, p));
                        lemma_walk_prepend(g, from, p);
                        assert(is_walk(g, seq![from] + p));
                        assert forall|w: Seq<u32>| #[trigger] is_walk(g, w) && w[0] == from && w.last() == to implies p.len() + 1 <= w.len() by {
                            if w.len() == 1 {
                                assert(w.last() == w[0]);
                            }
                        }
                        assert(p[0] == to && p.last() == to);
                    }
                    return Some(n);
                }
                proof {
                    assert(visited@.contains(from)) by {
                        assert(visited@[0] == from);
                    }
                }
                if !seq_has(&visited, n) {
                    let ghost qb = queue@;
                    let ghost vb = visited@;
                    visited.push(n);
                    queue.push((n, n));
                    proof {
                        let p = seq![n];
                        assert(is_walk(g, p));
                        paths = paths.push(p);
                        assert forall|v: u32| #[trigger] visited@.contains(v) implies v == from || exists|q: int| 0 <= q < queue@.len() && queue@[q].0 == v by {
                            if v == n {
                                assert(queue@[queue@.len() - 1].0 == v);
                            } else {
                                let m = choose|m: int| 0 <= m < visited@.len() && visited@[m] == v;
                                assert(vb[m] == v);
                                assert(vb.contains(v));
                                if v != from {
                                    let q = choose|q: int| 0 <= q < qb.len() && qb[q].0 == v;
                                    assert(queue@[q] == qb[q]);
                                }
                            }
                        }
                    }
                }
                assert(ns@[k as int] != to);
                k = k + 1;
            }
            expanded.set(i0, true);
            proof {
                assert forall|m: int| 0 <= m < g.len() && g[m].0 == from implies !(#[trigger] g[m].1@).contains(to) by {
                    assert(m == i0);
                }
                assert forall|w: u32| #[trigger] step(g, from, w) implies visited@.contains(w) by {
                    let m = choose|m: int| 0 <= m < g.len() && g[m].0 == from && (#[trigger] g[m].1@).contains(w);
                    assert(m == i0);
                    let j = choose|j: int| 0 <= j < ns@.len() && ns@[j] == w;
                    assert(visited@.contains(ns@[j]));
                }
            }
        },
        None => {},
    }
    assert(!step(g, from, to));
    proof {
        assert(visited@.contains(from)) by {
            assert(visited@[0] == from);
        }
        assert forall|p: Seq<u32>| #[trigger] is_walk(g, p) && p[0] == from && p.len() <= 2 implies visited@.contains(p.last()) by {
            if p.len() == 2 {
                assert(step(g, p[0], p[1]));
            }
        }
        assert(within(g, from, 1, visited@));
        assert forall|q: int, p: Seq<u32>| #![trigger is_walk(g, p), queue@[q]]
            0 <= q < queue@.len() && is_walk(g, p) && p[0] == from && p.last() == queue@[q].0 implies paths[q].len() + 1 <= p.len() by {
            assert(paths[q].len() == 1);
            if p.len() == 1 {
                assert(p.last() == p[0]);
            }
        }
    }

    let mut head: usize = 0;
    while head < queue.len()
        invariant
            g == graph@,
            keys_unique(g),
            from != to,
            !step(g, from, to),
            expanded@.len() == g.len(),
            head <= queue@.len(),
            visited@.len() >= 1,
            visited@[0] == from,
            !visited@.contains(to),
            queue@.len() == paths.len(),
            forall|q: int| 0 <= q < queue@.len() ==> visited@.contains(#[trigger] queue@[q].0),
            forall|q: int| 0 <= q < queue@.len() ==> {
                &&& is_walk(g, #[trigger] paths[q])
                &&& paths[q][0] == queue@[q].1
                &&& paths[q].last() == queue@[q].0
                &&& step(g, from, queue@[q].1)
            },
            // an expanded entry has all its neighbours visited
            forall|m: int, w: u32| 0 <= m < g.len() && expanded@[m] && #[trigger] g[m].1@.contains(w) ==> visited@.contains(w),
            // the start's entry, if any, is expanded
            forall|m: int| 0 <= m < g.len() && g[m].0 == from ==> expanded@[m],
            // every visited planet is the start, or waits in the queue, or is done
            forall|v: u32| #[trigger] visited@.contains(v) ==> v == from
                || (exists|q: int| head <= q < queue@.len() && queue@[q].0 == v)
                || (forall|m: int| 0 <= m < g.len() && g[m].0 == v ==> expanded@[m]),
            // the queue is ordered by distance, and spans at most two distances
            forall|q1: int, q2: int| 0 <= q1 <= q2 < queue@.len() ==> (#[trigger] paths[q1]).len() <= (#[trigger] paths[q2]).len(),
            head < queue@.len() ==> forall|q: int| head <= q < queue@.len() ==> (#[trigger] paths[q]).len() <= paths[head as int].len() + 1,
            // each queued planet is reached by no shorter walk
            forall|q: int, p: Seq<u32>| #![trigger is_walk(g, p), queue@[q]]
                0 <= q < queue@.len() && is_walk(g, p) && p[0] == from && p.last() == queue@[q].0 ==> paths[q].len() + 1 <= p.len(),
            // every planet as close as the head is visited
            head < queue@.len() ==> within(g, from, paths[head as int].len(), visited@),
        decreases count_false(expanded@), queue@.len() - head,
    {
        let node = queue[head].0;
        let first = queue[head].1;
        let ghost cur_path = paths[head as int];
        let ghost old_visited = visited@;
        proof {
            assert forall|q: int| 0 <= q < queue@.len() implies (#[trigger] paths[q]).len() <= cur_path.len() + 1 by {
                if q < head {
                    assert(paths[q].len() <= paths[head as int].len());
                }
            }
        }
        match entry_of(graph, node) {
            Some(i) => {
                if !expanded[i] {
                    let ns = &graph[i].1;
                    let ghost queue_before = queue@;
                    let mut k: usize = 0;
                    while k < ns.len()
                        invariant
                            g == graph@,
                            keys_unique(g),
                            from != to,
                            i < g.len(),
                            g[i as int].0 == node,
                            *ns == g[i as int].1,
                            node == queue@[head as int].0,
                            first == queue@[head as int].1,
                            cur_path == paths[head as int],
                            k <= ns@.len(),
                            expanded@.len() == g.len(),
                            !expanded@[i as int],
                            head < queue@.len(),
                            queue_before.len() <= queue@.len(),
                            forall|q: int| 0 <= q < queue_before.len() ==> queue@[q] == queue_before[q],
                            visited@.len() >= 1,
                            visited@[0] == from,
                            !visited@.contains(to),
                            forall|v: u32| old_visited.contains(v) ==> visited@.contains(v),
                            forall|m: int| 0 <= m < k ==> visited@.contains(#[trigger] ns@[m]),
                            queue@.len() == paths.len(),
                            forall|q: int| 0 <= q < queue@.len() ==> visited@.contains(#[trigger] queue@[q].0),
                            forall|q: int| 0 <= q < queue@.len() ==> {
                                &&& is_walk(g, #[trigger] paths[q])
                                &&& paths[q][0] == queue@[q].1
                                &&& paths[q].last() == queue@[q].0
                                &&& step(g, from, queue@[q].1)
                            },
                            forall|m: int, w: u32| 0 <= m < g.len() && expanded@[m] && #[trigger] g[m].1@.contains(w) ==> visited@.contains(w),
                            forall|m: int| 0 <= m < g.len() && g[m].0 == from ==> expanded@[m],
                            forall|v: u32| #[trigger] visited@.contains(v) ==> v == from
                                || (exists|q: int| head <= q < queue@.len() && queue@[q].0 == v)
                                || (forall|m: int| 0 <= m < g.len() && g[m].0 == v ==> expanded@[m]),
                            within(g, from, cur_path.len(), old_visited),
                            forall|q1: int, q2: int| 0 <= q1 <= q2 < queue@.len() ==> (#[trigger] paths[q1]).len() <= (#[trigger] paths[q2]).len(),
                            forall|q: int| 0 <= q < queue@.len() ==> (#[trigger] paths[q]).len() <= cur_path.len() + 1,
                            forall|q: int, p: Seq<u32>| #![trigger is_walk(g, p), queue@[q]]
                                0 <= q < queue@.len() && is_walk(g, p) && p[0] == from && p.last() == queue@[q].0 ==> paths[q].len() + 1 <= p.len(),
                        decreases ns@.len() - k,
                    {
                        let n = ns[k];
                        proof {
                            assert(g[i as int].1@.contains(n));
                            assert(step(g, node, n));
                        }
                        if n == to {
                            proof {
                                lemma_walk_push(g, cur_path, n);
                                let w = cur_path.push(n);
                                assert(is_walk(g, w));
                                lemma_walk_prepend(g, from, w);
                                assert(is_walk(g, seq![from] + w));
                                assert forall|p: Seq<u32>| #[trigger] is_walk(g, p) && p[0] == from && p.last() == to implies w.len() + 1 <= p.len() by {
                                    if p.len() <= cur_path.len() + 1 {
                                        assert(old_visited.contains(p.last()));
                                        assert(visited@.contains(to));
                                    }
                                }
                                assert(w[0] == first);
                            }
                            return Some(first);
                        }
                        if !seq_has(&visited, n) {
                            let ghost vb = visited@;
                            let ghost qb = queue@;
                            visited.push(n);
                            queue.push((n, first));
                            proof {
                                lemma_walk_push(g, cur_path, n);
                                let ghost pb = paths;
                                paths = paths.push(cur_path.push(n));
                                assert forall|q: int, p: Seq<u32>| #![trigger is_walk(g, p), queue@[q]]
                                    0 <= q < queue@.len() && is_walk(g, p) && p[0] == from && p.last() == queue@[q].0
                                    implies paths[q].len() + 1 <= p.len() by {
                                    if q < qb.len() {
                                        assert(queue@[q] == qb[q]);
                                        assert(paths[q] == pb[q]);
                                    } else {
                                        if p.len() <= cur_path.len() + 1 {
                                            assert(old_visited.contains(p.last()));
                                            assert(vb.contains(n));
                                            assert(false);
                                        }
                                    }
                                }
                                assert forall|q: int| 0 <= q < queue@.len() implies visited@.contains(#[trigger] queue@[q].0) by {
                                    if q < qb.len() {
                                        assert(queue@[q] == qb[q]);
                                        assert(vb.contains(qb[q].0));
                                        let j = choose|j: int| 0 <= j < vb.len() && vb[j] == qb[q].0;
                                        assert(visited@[j] == qb[q].0);
                                    } else {
                                        assert(visited@[visited@.len() - 1] == n);
                                    }
                                }
                                assert forall|v: u32| old_visited.contains(v) implies visited@.contains(v) by {
                                    assert(vb.contains(v));
                                    let m = choose|m: int| 0 <= m < vb.len() && vb[m] == v;
                                    assert(visited@[m] == v);
                                }
                                assert forall|m: int| 0 <= m < k + 1 implies visited@.contains(#[trigger] ns@[m]) by {
                                    if m < k {
                                        assert(vb.contains(ns@[m]));
                                        let j = choose|j: int| 0 <= j < vb.len() && vb[j] == ns@[m];
                                        assert(visited@[j] == ns@[m]);
                                    } else {
                                        assert(visited@[visited@.len() - 1] == n);
                                    }
                                }
                                assert forall|mm: int, w: u32| 0 <= mm < g.len() && expanded@[mm] && #[trigger] g[mm].1@.contains(w) implies visited@.contains(w) by {
                                    assert(vb.contains(w));
                                    let j = choose|j: int| 0 <= j < vb.len() && vb[j] == w;
                                    assert(visited@[j] == w);
                                }
                                assert forall|v: u32| #[trigger] visited@.contains(v) implies v == from
                                    || (exists|q: int| head <= q < queue@.len() && queue@[q].0 == v)
                                    || (forall|m: int| 0 <= m < g.len() && g[m].0 == v ==> expanded@[m]) by {
                                    if v == n {
                                        assert(queue@[queue@.len() - 1].0 == v);
                                    } else {
                                        let j = choose|j: int| 0 <= j < visited@.len() && visited@[j] == v;
                                        assert(vb[j] == v);
                                        assert(vb.contains(v));
                                        if v != from && !(forall|m: int| 0 <= m < g.len() && g[m].0 == v ==> expanded@[m]) {
                                            let q = choose|q: int| head <= q < qb.len() && qb[q].0 == v;
                                            assert(queue@[q] == qb[q]);
                                        }
                                    }
                                }
                            }
                        }
                        k = k + 1;
                    }
                    proof {
                        lemma_count_false_set(expanded@, i as int);
                    }
                    expanded.set(i, true);
                    proof {
                        assert forall|m: int, w: u32| 0 <= m < g.len() && expanded@[m] && #[trigger] g[m].1@.contains(w) implies visited@.contains(w) by {
                            if m == i {
                                let j = choose|j: int| 0 <= j < ns@.len() && ns@[j] == w;
                                assert(visited@.contains(ns@[j]));
                            }
                        }
                    }
                }
            },
            None => {},
        }
        proof {
            // the dequeued planet is now done
            assert forall|v: u32| #[trigger] visited@.contains(v) implies v == from
                || (exists|q: int| head + 1 <= q < queue@.len() && queue@[q].0 == v)
                || (forall|m: int| 0 <= m < g.len() && g[m].0 == v ==> expanded@[m]) by {
                if v != from && !(forall|m: int| 0 <= m < g.len() && g[m].0 == v ==> expanded@[m]) {
                    let q = choose|q: int| head <= q < queue@.len() && queue@[q].0 == v;
                    if q == head {
                        assert(v == node);
                        let m = choose|m: int| 0 <= m < g.len() && g[m].0 == v && !expanded@[m];
                        assert(false);
                    }
                }
            }
        }
        proof {
            assert forall|v: u32| old_visited.contains(v) implies visited@.contains(v) by {}
            if head + 1 < queue@.len() {
                let d = cur_path.len();
                lemma_within_grows(g, from, d, old_visited, visited@);
                assert(paths[head as int].len() <= paths[head + 1].len());
                if paths[head + 1].len() != d {
                    assert(paths[head + 1].len() <= d + 1);
                    assert forall|q: int| head + 1 <= q < queue@.len() implies (#[trigger] paths[q]).len() >= d + 1 by {
                        assert(paths[head + 1].len() <= paths[q].len());
                    }
                    lemma_advance_within(g, from, visited@, queue@, paths, expanded@, head + 1, d);
                }
                assert forall|q: int| head + 1 <= q < queue@.len() implies (#[trigger] paths[q]).len() <= paths[head + 1].len() + 1 by {
                    assert(paths[q].len() <= d + 1);
                }
            }
        }
        head = head + 1;
    }

    proof {
        // The visited set is closed under steps, and `to` is not in it.
        assert forall|v: u32, w: u32| visited@.contains(v) && #[trigger] step(g, v, w) implies visited@.contains(w) by {
            let m = choose|m: int| 0 <= m < g.len() && g[m].0 == v && #[trigger] g[m].1@.contains(w);
            assert(expanded@[m]);
        }
        assert forall|p: Seq<u32>| #[trigger] is_walk(g, p) && p[0] == from implies p.last() != to by {
            assert(visited@[0] == from);
            assert(visited@.contains(from));
            lemma_closed_contains_walk(g, visited@, p);
        }
    }
    None
}

} // verus!
