//! Walks and cycles over the directed edges of a graph, written down as
//! mathematics: an edge is a pair of node ids, a walk is a list of ids in
//! which each is joined to the next by an edge. The graph's checks and its
//! ordering are stated in these terms, and the lemmas here carry their proofs.

use crate::connection::Connection;
use vstd::prelude::*;

verus! {

/// The directed edges that a list of connections draws between node ids.
pub open spec fn edges_of(connections: Seq<Connection>) -> Seq<(Seq<char>, Seq<char>)> {
    Seq::new(connections.len(), |i: int| (connections[i].from_node@, connections[i].to_node@))
}

/// An edge leads from `p[i]` to `p[i + 1]`.
pub open spec fn links(edges: Seq<(Seq<char>, Seq<char>)>, p: Seq<Seq<char>>, i: int) -> bool {
    edges.contains((p[i], p[i + 1]))
}

/// `p` is a walk: at least one node, and an edge from each node to the next.
pub open spec fn is_walk(edges: Seq<(Seq<char>, Seq<char>)>, p: Seq<Seq<char>>) -> bool {
    &&& p.len() >= 1
    &&& forall|i: int| 0 <= i < p.len() - 1 ==> #[trigger] links(edges, p, i)
}

/// `c` is a cycle: a walk whose last node has an edge back to its first.
pub open spec fn is_cycle(edges: Seq<(Seq<char>, Seq<char>)>, c: Seq<Seq<char>>) -> bool {
    &&& is_walk(edges, c)
    &&& edges.contains((c.last(), c[0]))
}

/// The edges hold a cycle.
pub open spec fn has_cycle(edges: Seq<(Seq<char>, Seq<char>)>) -> bool {
    exists|c: Seq<Seq<char>>| is_cycle(edges, c)
}

/// A walk leads from `u` to `v`. Every node reaches itself.
pub open spec fn reaches(edges: Seq<(Seq<char>, Seq<char>)>, u: Seq<char>, v: Seq<char>) -> bool {
    exists|p: Seq<Seq<char>>| #[trigger] is_walk(edges, p) && p[0] == u && p.last() == v
}

/// A walk of at least one edge leads from `x` back to `x`.
pub open spec fn on_cycle(edges: Seq<(Seq<char>, Seq<char>)>, x: Seq<char>) -> bool {
    exists|p: Seq<Seq<char>>|
        #[trigger] is_walk(edges, p) && p.len() >= 2 && p[0] == x && p.last() == x
}

/// No edge leaves the set `f`.
pub open spec fn closed(edges: Seq<(Seq<char>, Seq<char>)>, f: Set<Seq<char>>) -> bool {
    forall|i: int|
        0 <= i < edges.len() && f.contains((#[trigger] edges[i]).0) ==> f.contains(edges[i].1)
}

/// In `order`, every edge that starts at a listed node ends at a node listed
/// before it.
pub open spec fn targets_first(edges: Seq<(Seq<char>, Seq<char>)>, order: Seq<Seq<char>>) -> bool {
    forall|k: int, i: int|
        0 <= k < order.len() && 0 <= i < edges.len() && (#[trigger] edges[i]).0
            == #[trigger] order[k] ==> order.take(k).contains(edges[i].1)
}

/// A walk that starts inside a closed set never leaves it.
pub proof fn lemma_walk_stays(
    edges: Seq<(Seq<char>, Seq<char>)>,
    f: Set<Seq<char>>,
    p: Seq<Seq<char>>,
    i: int,
)
    requires
        closed(edges, f),
        is_walk(edges, p),
        f.contains(p[0]),
        0 <= i < p.len(),
    ensures
        f.contains(p[i]),
    decreases i,
{
    if i > 0 {
        lemma_walk_stays(edges, f, p, i - 1);
        assert(links(edges, p, i - 1));
        let e = choose|e: int| 0 <= e < edges.len() && edges[e] == (p[i - 1], p[i]);
        assert(f.contains(edges[e].0));
    }
}

/// What is left of a walk after its first `k` nodes is a walk.
pub proof fn lemma_walk_suffix(edges: Seq<(Seq<char>, Seq<char>)>, p: Seq<Seq<char>>, k: int)
    requires
        is_walk(edges, p),
        0 <= k < p.len(),
    ensures
        is_walk(edges, p.skip(k)),
{
    let q = p.skip(k);
    assert forall|i: int| 0 <= i < q.len() - 1 implies #[trigger] links(edges, q, i) by {
        assert(links(edges, p, i + k));
    }
}

/// A walk goes on along any edge that leaves its last node.
pub proof fn lemma_walk_push(edges: Seq<(Seq<char>, Seq<char>)>, p: Seq<Seq<char>>, v: Seq<char>)
    requires
        is_walk(edges, p),
        edges.contains((p.last(), v)),
    ensures
        is_walk(edges, p.push(v)),
{
    let q = p.push(v);
    assert forall|i: int| 0 <= i < q.len() - 1 implies #[trigger] links(edges, q, i) by {
        if i < p.len() - 1 {
            assert(links(edges, p, i));
        }
    }
}

/// A single node is a walk.
pub proof fn lemma_walk_single(edges: Seq<(Seq<char>, Seq<char>)>, u: Seq<char>)
    ensures
        is_walk(edges, seq![u]),
        reaches(edges, u, u),
{
    let p = seq![u];
    assert(is_walk(edges, p));
    assert(p[0] == u && p.last() == u);
}

/// What `u` reaches, it still reaches one edge further on.
pub proof fn lemma_reaches_step(
    edges: Seq<(Seq<char>, Seq<char>)>,
    u: Seq<char>,
    v: Seq<char>,
    w: Seq<char>,
)
    requires
        reaches(edges, u, v),
        edges.contains((v, w)),
    ensures
        reaches(edges, u, w),
{
    let p = choose|p: Seq<Seq<char>>| #[trigger] is_walk(edges, p) && p[0] == u && p.last() == v;
    lemma_walk_push(edges, p, w);
    let q = p.push(w);
    assert(is_walk(edges, q) && q[0] == u && q.last() == w);
}

/// The first node of a cycle lies on a cycle, and an edge ends at it.
pub proof fn lemma_cycle_start(edges: Seq<(Seq<char>, Seq<char>)>, c: Seq<Seq<char>>)
    requires
        is_cycle(edges, c),
    ensures
        on_cycle(edges, c[0]),
        exists|e: int| 0 <= e < edges.len() && (#[trigger] edges[e]).1 == c[0],
{
    lemma_walk_push(edges, c, c[0]);
    let p = c.push(c[0]);
    assert(is_walk(edges, p) && p.len() >= 2 && p[0] == c[0] && p.last() == c[0]);
    let e = choose|e: int| 0 <= e < edges.len() && edges[e] == (c.last(), c[0]);
    assert(edges[e].1 == c[0]);
}

/// A node on a cycle has an edge to a node that reaches it back.
pub proof fn lemma_on_cycle_next(edges: Seq<(Seq<char>, Seq<char>)>, x: Seq<char>) -> (next: Seq<
    char,
>)
    requires
        on_cycle(edges, x),
    ensures
        edges.contains((x, next)),
        reaches(edges, next, x),
{
    let p = choose|p: Seq<Seq<char>>|
        #[trigger] is_walk(edges, p) && p.len() >= 2 && p[0] == x && p.last() == x;
    assert(links(edges, p, 0));
    lemma_walk_suffix(edges, p, 1);
    let q = p.skip(1);
    assert(is_walk(edges, q) && q[0] == p[1] && q.last() == x);
    p[1]
}

/// What a node of a closed set reaches lies in the set too.
pub proof fn lemma_reach_stays(
    edges: Seq<(Seq<char>, Seq<char>)>,
    f: Set<Seq<char>>,
    u: Seq<char>,
    v: Seq<char>,
)
    requires
        closed(edges, f),
        f.contains(u),
        reaches(edges, u, v),
    ensures
        f.contains(v),
{
    let p = choose|p: Seq<Seq<char>>| #[trigger] is_walk(edges, p) && p[0] == u && p.last() == v;
    lemma_walk_stays(edges, f, p, p.len() - 1);
}

/// Where targets come first, a walk that starts at `order[k]` goes on only
/// through nodes listed before position `k`.
pub proof fn lemma_walk_descends(
    edges: Seq<(Seq<char>, Seq<char>)>,
    order: Seq<Seq<char>>,
    p: Seq<Seq<char>>,
    k: int,
    i: int,
)
    requires
        targets_first(edges, order),
        is_walk(edges, p),
        0 <= k < order.len(),
        p[0] == order[k],
        1 <= i < p.len(),
    ensures
        order.take(k).contains(p[i]),
    decreases i,
{
    assert(links(edges, p, i - 1));
    let e = choose|e: int| 0 <= e < edges.len() && edges[e] == (p[i - 1], p[i]);
    if i == 1 {
        assert(edges[e].0 == order[k]);
    } else {
        lemma_walk_descends(edges, order, p, k, i - 1);
        let j = choose|j: int| 0 <= j < k && order.take(k)[j] == p[i - 1];
        assert(edges[e].0 == order[j]);
        assert(order.take(j).contains(p[i]));
        let m = choose|m: int| 0 <= m < j && order.take(j)[m] == p[i];
        assert(order.take(k)[m] == p[i]);
    }
}

/// Where targets come first in a list without repeats, no listed node lies
/// on a cycle.
pub proof fn lemma_listed_off_cycle(
    edges: Seq<(Seq<char>, Seq<char>)>,
    order: Seq<Seq<char>>,
    k: int,
)
    requires
        targets_first(edges, order),
        order.no_duplicates(),
        0 <= k < order.len(),
    ensures
        !on_cycle(edges, order[k]),
{
    if on_cycle(edges, order[k]) {
        let p = choose|p: Seq<Seq<char>>|
            #[trigger] is_walk(edges, p) && p.len() >= 2 && p[0] == order[k] && p.last()
                == order[k];
        lemma_walk_descends(edges, order, p, k, p.len() - 1);
        let j = choose|j: int| 0 <= j < k && order.take(k)[j] == p.last();
        assert(order[j] == order[k]);
    }
}

/// Where targets come first, the listed nodes form a closed set.
pub proof fn lemma_listed_closed(edges: Seq<(Seq<char>, Seq<char>)>, order: Seq<Seq<char>>)
    requires
        targets_first(edges, order),
    ensures
        closed(edges, order.to_set()),
{
    assert forall|i: int|
        0 <= i < edges.len() && order.to_set().contains((#[trigger] edges[i]).0) implies order.to_set().contains(
        edges[i].1,
    ) by {
        let k = choose|k: int| 0 <= k < order.len() && order[k] == edges[i].0;
        assert(order.take(k).contains(edges[i].1));
        let j = choose|j: int| 0 <= j < k && order.take(k)[j] == edges[i].1;
        assert(order[j] == edges[i].1);
    }
}

/// A node on a cycle shows that the edges hold a cycle.
pub proof fn lemma_on_cycle_has_cycle(edges: Seq<(Seq<char>, Seq<char>)>, x: Seq<char>)
    requires
        on_cycle(edges, x),
    ensures
        has_cycle(edges),
{
    let p = choose|p: Seq<Seq<char>>|
        #[trigger] is_walk(edges, p) && p.len() >= 2 && p[0] == x && p.last() == x;
    let c = p.drop_last();
    assert forall|i: int| 0 <= i < c.len() - 1 implies #[trigger] links(edges, c, i) by {
        assert(links(edges, p, i));
    }
    assert(links(edges, p, p.len() - 2));
    assert(c.last() == p[p.len() - 2]);
    assert(is_cycle(edges, c));
}

} // verus!
