//! Reachability in a directed graph whose nodes are the positions `0..n`.
use vstd::prelude::*;
use vstd::set_lib::*;

verus! {

/// Some edge goes from `u` to `v`.
pub open spec fn has_edge(edges: Seq<(usize, usize)>, u: int, v: int) -> bool {
    exists|k: int| 0 <= k < edges.len() && edges[k].0 == u && edges[k].1 == v
}

/// `p` is a non-empty sequence of nodes in which each step follows an edge.
pub open spec fn is_walk(edges: Seq<(usize, usize)>, p: Seq<int>) -> bool {
    &&& p.len() > 0
    &&& forall|i: int| 0 <= i < p.len() - 1 ==> #[trigger] has_edge(edges, p[i], p[i + 1])
}

/// A walk leads from `from` to `to` (every node reaches itself).
pub open spec fn reachable(edges: Seq<(usize, usize)>, from: int, to: int) -> bool {
    exists|p: Seq<int>| is_walk(edges, p) && p[0] == from && p.last() == to
}

/// Every edge joins two of the nodes `0..n`.
pub open spec fn edges_within(edges: Seq<(usize, usize)>, n: int) -> bool {
    forall|k: int| 0 <= k < edges.len() ==> #[trigger] edges[k].0 < n && edges[k].1 < n
}

/// The marks in `seen` are closed under edges: a marked node marks its successors.
pub open spec fn closed_under(edges: Seq<(usize, usize)>, seen: Seq<bool>) -> bool {
    forall|k: int|
        0 <= k < edges.len() && #[trigger] seen[edges[k].0 as int] ==> seen[edges[k].1 as int]
}

/// Every node reaches itself.
pub proof fn lemma_reachable_refl(edges: Seq<(usize, usize)>, v: int)
    ensures
        reachable(edges, v, v),
{
    let p = seq![v];
    assert(is_walk(edges, p));
    assert(p[0] == v && p.last() == v);
}

/// Following one more edge extends reachability.
pub proof fn lemma_reachable_step(edges: Seq<(usize, usize)>, a: int, u: int, k: int)
    requires
        reachable(edges, a, u),
        0 <= k < edges.len(),
        edges[k].0 == u,
    ensures
        reachable(edges, a, edges[k].1 as int),
{
    let p = choose|p: Seq<int>| is_walk(edges, p) && p[0] == a && p.last() == u;
    let w = edges[k].1 as int;
    let q = p.push(w);
    assert forall|i: int| 0 <= i < q.len() - 1 implies #[trigger] has_edge(edges, q[i], q[i + 1]) by {
        if i < p.len() - 1 {
            assert(q[i] == p[i] && q[i + 1] == p[i + 1]);
        } else {
            assert(q[i] == u && q[i + 1] == w);
        }
    }
    assert(is_walk(edges, q));
    assert(q[0] == a && q.last() == w);
}

/// A set of marks that holds the start of a walk and is closed under edges holds
/// every node of the walk.
pub proof fn lemma_closed_holds_walk(edges: Seq<(usize, usize)>, seen: Seq<bool>, p: Seq<int>)
    requires
        is_walk(edges, p),
        0 <= p[0] < seen.len(),
        seen[p[0]],
        edges_within(edges, seen.len() as int),
        closed_under(edges, seen),
    ensures
        0 <= p.last() < seen.len(),
        seen[p.last()],
    decreases p.len(),
{
    if p.len() > 1 {
        let q = p.drop_last();
        assert forall|i: int| 0 <= i < q.len() - 1 implies #[trigger] has_edge(edges, q[i], q[i + 1]) by {
            assert(has_edge(edges, p[i], p[i + 1]));
        }
        lemma_closed_holds_walk(edges, seen, q);
        let i = p.len() - 2;
        assert(has_edge(edges, p[i], p[i + 1]));
        let k = choose|k: int| 0 <= k < edges.len() && edges[k].0 == p[i] && edges[k].1 == p[i + 1];
        assert(q.last() == p[i]);
        assert(seen[edges[k].0 as int]);
    }
}

/// Marks the nodes `0..n` that are reachable from `entry`, by a depth-first search.
pub fn reachable_from(n: usize, edges: &Vec<(usize, usize)>, entry: usize) -> (seen: Vec<bool>)
    requires
        entry < n,
        edges_within(edges@, n as int),
    ensures
        seen@.len() == n,
        forall|v: int| 0 <= v < n ==> (seen@[v] <==> reachable(edges@, entry as int, v)),
{
    let ghost es = edges@;
    let mut seen: Vec<bool> = Vec::new();
    let mut i: usize = 0;
    while i < n
        invariant
            i <= n,
            seen@.len() == i,
            forall|v: int| 0 <= v < i ==> !seen@[v],
        decreases n - i,
    {
        seen.push(false);
        i = i + 1;
    }
    seen.set(entry, true);
    proof {
        lemma_reachable_refl(es, entry as int);
    }
    let ghost mut vis: Set<int> = set![entry as int];
    let mut stack: Vec<usize> = Vec::new();
    stack.push(entry);
    assert(stack@[0] == entry);
    proof {
        assert forall|k: int|
            0 <= k < es.len() && #[trigger] seen@[es[k].0 as int] implies stack@.contains(es[k].0) by {
            assert(es[k].0 < n);
            assert(es[k].0 == entry);
        }
        lemma_int_range(0, n as int);
        lemma_len_subset(vis, set_int_range(0, n as int));
    }
    while stack.len() > 0
        invariant
            es == edges@,
            entry < n,
            edges_within(es, n as int),
            seen@.len() == n,
            seen@[entry as int],
            forall|v: int| 0 <= v < n && #[trigger] seen@[v] ==> reachable(es, entry as int, v),
            forall|i: int| 0 <= i < stack@.len() ==> #[trigger] stack@[i] < n && seen@[stack@[i] as int],
            forall|i: int, j: int| 0 <= i < j < stack@.len() ==> stack@[i] != stack@[j],
            forall|k: int|
                0 <= k < es.len() && #[trigger] seen@[es[k].0 as int] && !stack@.contains(es[k].0)
                    ==> seen@[es[k].1 as int],
            vis.finite(),
            vis.subset_of(set_int_range(0, n as int)),
            forall|v: int| 0 <= v < n ==> (vis.contains(v) <==> seen@[v]),
        decreases 2 * (n - vis.len()) + stack.len(),
    {
        proof {
            lemma_int_range(0, n as int);
            lemma_len_subset(vis, set_int_range(0, n as int));
        }
        let ghost measure0 = 2 * (n - vis.len()) + stack.len();
        let ghost stack0 = stack@;
        let u = stack.pop().unwrap();
        assert(stack0 == stack@.push(u));
        assert(!stack@.contains(u)) by {
            if stack@.contains(u) {
                let j = choose|j: int| 0 <= j < stack@.len() && stack@[j] == u;
                assert(stack0[j] == stack0[stack0.len() - 1]);
            }
        }
        for k in 0..edges.len()
            invariant
                es == edges@,
                entry < n,
                u < n,
                edges_within(es, n as int),
                seen@.len() == n,
                seen@[entry as int],
                seen@[u as int],
                !stack@.contains(u),
                forall|v: int| 0 <= v < n && #[trigger] seen@[v] ==> reachable(es, entry as int, v),
                forall|i: int| 0 <= i < stack@.len() ==> #[trigger] stack@[i] < n && seen@[stack@[i] as int],
                forall|i: int, j: int| 0 <= i < j < stack@.len() ==> stack@[i] != stack@[j],
                forall|m: int|
                    0 <= m < es.len() && #[trigger] seen@[es[m].0 as int] && !stack@.contains(es[m].0)
                        && es[m].0 != u ==> seen@[es[m].1 as int],
                forall|m: int| 0 <= m < k && es[m].0 == u ==> #[trigger] seen@[es[m].1 as int],
                vis.finite(),
                vis.subset_of(set_int_range(0, n as int)),
                forall|v: int| 0 <= v < n ==> (vis.contains(v) <==> seen@[v]),
                2 * (n - vis.len()) + stack.len() < measure0,
        {
            let (a, b) = edges[k];
            assert(es[k as int].0 < n && es[k as int].1 < n);
            if a == u && !seen[b] {
                proof {
                    lemma_reachable_step(es, entry as int, u as int, k as int);
                }
                let ghost old_stack = stack@;
                seen.set(b, true);
                stack.push(b);
                proof {
                    assert(!vis.contains(b as int));
                    vis = vis.insert(b as int);
                    assert(!old_stack.contains(b)) by {
                        if old_stack.contains(b) {
                            let j = choose|j: int| 0 <= j < old_stack.len() && old_stack[j] == b;
                            assert(seen@[old_stack[j] as int]);
                        }
                    }
                    assert forall|i: int| 0 <= i < stack@.len() implies #[trigger] stack@[i] < n
                        && seen@[stack@[i] as int] by {
                        if i < old_stack.len() {
                            assert(stack@[i] == old_stack[i]);
                        }
                    }
                    assert forall|i: int, j: int| 0 <= i < j < stack@.len() implies stack@[i]
                        != stack@[j] by {
                        if j == stack@.len() - 1 {
                            assert(old_stack[i] == stack@[i]);
                        } else {
                            assert(old_stack[i] == stack@[i] && old_stack[j] == stack@[j]);
                        }
                    }
                    assert forall|m: int|
                        0 <= m < es.len() && #[trigger] seen@[es[m].0 as int] && !stack@.contains(
                            es[m].0,
                        ) && es[m].0 != u implies seen@[es[m].1 as int] by {
                        if es[m].0 != b {
                            assert(!old_stack.contains(es[m].0)) by {
                                if old_stack.contains(es[m].0) {
                                    let j = choose|j: int|
                                        0 <= j < old_stack.len() && old_stack[j] == es[m].0;
                                    assert(stack@[j] == es[m].0);
                                }
                            }
                        } else {
                            assert(stack@[stack@.len() - 1] == b);
                        }
                    }
                    assert(vis.subset_of(set_int_range(0, n as int)));
                    lemma_int_range(0, n as int);
                    lemma_len_subset(vis, set_int_range(0, n as int));
                }
            }
        }
        proof {
            assert forall|m: int|
                0 <= m < es.len() && #[trigger] seen@[es[m].0 as int] && !stack@.contains(es[m].0)
                    implies seen@[es[m].1 as int] by {
                if es[m].0 == u {
                    assert(0 <= m < edges@.len());
                }
            }
            lemma_int_range(0, n as int);
            lemma_len_subset(vis, set_int_range(0, n as int));
        }
    }
    proof {
        assert(closed_under(es, seen@)) by {
            assert forall|k: int| 0 <= k < es.len() && #[trigger] seen@[es[k].0 as int] implies seen@[es[k].1 as int] by {
                assert(!stack@.contains(es[k].0));
            }
        }
        assert forall|v: int| 0 <= v < n implies (seen@[v] <==> reachable(es, entry as int, v)) by {
            if reachable(es, entry as int, v) {
                let p = choose|p: Seq<int>| is_walk(es, p) && p[0] == entry as int && p.last() == v;
                lemma_closed_holds_walk(es, seen@, p);
            }
        }
    }
    seen
}

} // verus!
