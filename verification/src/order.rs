//! The order in which the nodes of a graph run, sources before sinks, and
//! the neighbours of a node.

use crate::error::{DomainError, DomainFault};
use crate::graph::NodeGraph;
use crate::text::{
    contains_name, lemma_find_first_cases, lemma_push_holds, names, position_of, same_text,
};
use crate::validate::{lemma_space_holds_edges, lemma_space_holds_ids};
use crate::walk::{
    has_cycle, is_cycle, is_walk, lemma_cycle_start, lemma_listed_closed,
    lemma_listed_off_cycle, lemma_reach_stays, lemma_reaches_step, lemma_walk_push,
    lemma_walk_single, lemma_walk_suffix, on_cycle, reaches, targets_first,
};
use vstd::prelude::*;

verus! {

/// `u` stands before `v` in `order`.
pub open spec fn comes_before(order: Seq<Seq<char>>, u: Seq<char>, v: Seq<char>) -> bool {
    exists|a: int, b: int| 0 <= a < b < order.len() && order[a] == u && order[b] == v
}

/// Some node of `ids` reaches `x`.
pub open spec fn rooted(ids: Seq<Seq<char>>, edges: Seq<(Seq<char>, Seq<char>)>, x: Seq<char>) -> bool {
    exists|k: int| 0 <= k < ids.len() && reaches(edges, #[trigger] ids[k], x)
}

/// The edge between `other` and `node`: into `node` where `incoming`, out of
/// it otherwise.
pub open spec fn edge_between(other: Seq<char>, node: Seq<char>, incoming: bool) -> (
    Seq<char>,
    Seq<char>,
) {
    if incoming {
        (other, node)
    } else {
        (node, other)
    }
}

/// A result of the ordering with its strings read as characters.
pub open spec fn ordering(r: Result<Vec<String>, DomainError>) -> Result<
    Seq<Seq<char>>,
    DomainFault,
> {
    match r {
        Ok(order) => Ok(names(order@)),
        Err(e) => Err(e@),
    }
}

/// The text of the error that reports a cycle through `x`.
pub open spec fn cycle_report(x: Seq<char>) -> Seq<char> {
    "Cycle detected involving node: "@ + x
}

/// What holds of the ordering search between two steps: nothing repeats,
/// the pending nodes form a walk, and in the finished list every edge that
/// starts at a listed node ends at a node listed before it.
pub open spec fn order_state(
    edges: Seq<(Seq<char>, Seq<char>)>,
    sorted: Seq<Seq<char>>,
    pending: Seq<Seq<char>>,
) -> bool {
    &&& sorted.no_duplicates()
    &&& pending.no_duplicates()
    &&& forall|x: Seq<char>| !(sorted.contains(x) && pending.contains(x))
    &&& pending.len() > 0 ==> is_walk(edges, pending)
    &&& targets_first(edges, sorted)
}

/// Two lists without repeats and without a common member, both drawn from
/// `space`, are together no longer than `space` has distinct members.
proof fn lemma_fits(space: Seq<Seq<char>>, a: Seq<Seq<char>>, b: Seq<Seq<char>>)
    requires
        a.no_duplicates(),
        b.no_duplicates(),
        forall|x: Seq<char>| !(a.contains(x) && b.contains(x)),
        forall|x: Seq<char>| a.contains(x) ==> space.contains(x),
        forall|x: Seq<char>| b.contains(x) ==> space.contains(x),
    ensures
        a.len() + b.len() <= space.to_set().len(),
{
    let both = a + b;
    assert forall|i: int, j: int| 0 <= i < a.len() && 0 <= j < b.len() implies a[i] != b[j] by {
        assert(a.contains(a[i]));
        assert(b.contains(b[j]));
    }
    vstd::seq_lib::lemma_no_dup_in_concat(a, b);
    both.unique_seq_to_set();
    vstd::seq_lib::seq_to_set_is_finite(space);
    assert forall|x: Seq<char>| both.to_set().contains(x) implies space.to_set().contains(x) by {
        let w = choose|w: int| 0 <= w < both.len() && both[w] == x;
        if w < a.len() {
            assert(a[w] == x);
        } else {
            assert(b[w - a.len()] == x);
        }
    }
    vstd::set_lib::lemma_len_subset(both.to_set(), space.to_set());
}

/// The strings of `list` in the opposite order.
fn reversed(list: Vec<String>) -> (r: Vec<String>)
    ensures
        names(r@) == names(list@).reverse(),
{
    let ghost all = names(list@);
    let mut rest = list;
    let mut out: Vec<String> = Vec::new();
    while rest.len() > 0
        invariant
            rest@.len() + out@.len() == all.len(),
            names(rest@) == all.take(rest@.len() as int),
            forall|j: int| 0 <= j < out@.len() ==> out@[j]@ == all[all.len() - 1 - j],
        decreases rest.len(),
    {
        let ghost before = rest@;
        let last = rest.pop().unwrap();
        proof {
            assert(names(before)[before.len() - 1] == last@);
            assert(names(rest@) =~= all.take(rest@.len() as int)) by {
                assert forall|j: int| 0 <= j < rest@.len() implies names(rest@)[j] == all[j] by {
                    assert(names(before)[j] == all[j]);
                }
            }
        }
        out.push(last);
    }
    assert(names(out@) =~= all.reverse());
    out
}

impl NodeGraph {
    /// Some node of the graph reaches `x`. Every node reaches itself.
    pub open spec fn reached(&self, x: Seq<char>) -> bool {
        rooted(self.ids(), self.edges(), x)
    }

    /// Every member of `list` lies in the search space and is reached from a
    /// node of the graph.
    pub open spec fn holds(&self, list: Seq<Seq<char>>) -> bool {
        forall|y: Seq<char>| list.contains(y) ==> self.space().contains(y) && self.reached(y)
    }

    /// Whether `answer` is a right answer of the ordering. An order lists
    /// what the nodes reach, each once, with every connection leading from
    /// an earlier to a later place; it is owed unless a cycle can be reached
    /// from a node, and then the error names a node on such a cycle.
    pub open spec fn is_ordering(&self, answer: Result<Seq<Seq<char>>, DomainFault>) -> bool {
        match answer {
            Ok(order) => {
                &&& order.no_duplicates()
                &&& forall|x: Seq<char>| order.contains(x) <==> self.reached(x)
                &&& forall|i: int|
                    0 <= i < self.edges().len() && order.contains((#[trigger] self.edges()[i]).0)
                        ==> comes_before(order, self.edges()[i].0, self.edges()[i].1)
                &&& forall|x: Seq<char>| self.reached(x) ==> !on_cycle(self.edges(), x)
            },
            Err(fault) => exists|x: Seq<char>|
                fault == DomainFault::Other(#[trigger] cycle_report(x)) && self.reached(x)
                    && on_cycle(self.edges(), x),
        }
    }

    /// Visits `node_id` and, before it is listed, all that it leads to. A
    /// node met again while it is still pending closes a cycle.
    fn topological_visit(
        &self,
        node_id: &str,
        sorted: &mut Vec<String>,
        pending: &mut Vec<String>,
    ) -> (r: Result<(), DomainError>)
        requires
            order_state(self.edges(), names(old(sorted)@), names(old(pending)@)),
            self.holds(names(old(sorted)@)),
            self.holds(names(old(pending)@)),
            self.space().contains(node_id@),
            self.reached(node_id@),
            old(pending)@.len() > 0 ==> self.edges().contains(
                (names(old(pending)@).last(), node_id@),
            ),
        ensures
            match r {
                Ok(()) => {
                    &&& names(final(pending)@) == names(old(pending)@)
                    &&& order_state(self.edges(), names(final(sorted)@), names(final(pending)@))
                    &&& self.holds(names(final(sorted)@))
                    &&& forall|y: Seq<char>|
                        names(old(sorted)@).contains(y) ==> names(final(sorted)@).contains(y)
                    &&& names(final(sorted)@).contains(node_id@)
                    &&& final(sorted)@.len() >= old(sorted)@.len()
                },
                Err(e) => exists|x: Seq<char>|
                    e@ == DomainFault::Other(#[trigger] cycle_report(x)) && self.reached(x)
                        && on_cycle(self.edges(), x),
            },
        decreases self.space().to_set().len() - (old(sorted)@.len() + old(pending)@.len()),
    {
        let ghost edges = self.edges();
        let ghost sorted0 = names(sorted@);
        let ghost pending0 = names(pending@);
        match position_of(pending, node_id) {
            Some(k) => {
                proof {
                    lemma_find_first_cases(pending0, node_id@);
                    lemma_walk_suffix(edges, pending0, k as int);
                    let c = pending0.skip(k as int);
                    assert(c[0] == node_id@);
                    assert(c.last() == pending0.last());
                    assert(is_cycle(edges, c));
                    lemma_cycle_start(edges, c);
                }
                let mut message = "Cycle detected involving node: ".to_owned();
                message.append(node_id);
                assert(message@ == cycle_report(node_id@));
                return Err(DomainError::Other(message));
            },
            None => {
                proof {
                    lemma_find_first_cases(pending0, node_id@);
                }
            },
        }
        if contains_name(sorted, node_id) {
            return Ok(());
        }
        pending.push(node_id.to_owned());
        proof {
            let pending1 = names(pending@);
            assert(pending1 == pending0.push(node_id@));
            if pending0.len() == 0 {
                lemma_walk_single(edges, node_id@);
                assert(pending1 == seq![node_id@]);
            } else {
                lemma_walk_push(edges, pending0, node_id@);
            }
            lemma_push_holds(pending0, node_id@);
        }
        let mut i: usize = 0;
        while i < self.connections.len()
            invariant
                i <= self.connections.len(),
                edges == self.edges(),
                self.reached(node_id@),
                names(pending@) == pending0.push(node_id@),
                order_state(edges, names(sorted@), names(pending@)),
                self.holds(names(sorted@)),
                self.holds(names(pending@)),
                forall|y: Seq<char>| sorted0.contains(y) ==> names(sorted@).contains(y),
                forall|j: int|
                    0 <= j < i && (#[trigger] edges[j]).0 == node_id@ ==> names(sorted@).contains(
                        edges[j].1,
                    ),
                sorted@.len() >= old(sorted)@.len(),
                pending@.len() == old(pending)@.len() + 1,
            decreases self.connections.len() - i,
        {
            let ghost sorted_before = names(sorted@);
            let ghost pending1 = names(pending@);
            let conn = &self.connections[i];
            assert(edges[i as int] == (conn.from_node@, conn.to_node@));
            if same_text(conn.from_node.as_str(), node_id) {
                proof {
                    lemma_space_holds_edges(self.ids(), edges, i as int);
                    lemma_fits(self.space(), names(sorted@), names(pending@));
                    assert(pending1.last() == node_id@);
                    let k = choose|k: int|
                        0 <= k < self.ids().len() && reaches(edges, #[trigger] self.ids()[k], node_id@);
                    assert(edges.contains(edges[i as int]));
                    lemma_reaches_step(edges, self.ids()[k], node_id@, conn.to_node@);
                }
                match self.topological_visit(conn.to_node.as_str(), sorted, pending) {
                    Ok(()) => {},
                    Err(e) => {
                        return Err(e);
                    },
                }
                proof {
                    assert forall|j: int|
                        0 <= j < i + 1 && (#[trigger] edges[j]).0 == node_id@ implies names(
                        sorted@,
                    ).contains(edges[j].1) by {
                        if j < i {
                            assert(sorted_before.contains(edges[j].1));
                        }
                    }
                }
            }
            i += 1;
        }
        let ghost full = pending@;
        let ghost listed = names(sorted@);
        pending.pop();
        sorted.push(node_id.to_owned());
        proof {
            let pending1 = pending0.push(node_id@);
            let after = names(sorted@);
            assert(pending@ == full.drop_last());
            assert forall|j: int| 0 <= j < pending0.len() implies names(pending@)[j]
                == pending0[j] by {
                assert(names(full)[j] == pending1[j]);
            }
            assert(names(pending@) =~= pending0);
            assert(after == listed.push(node_id@));
            lemma_push_holds(pending0, node_id@);
            assert(pending1.contains(node_id@));
            assert(!listed.contains(node_id@));
            lemma_push_holds(listed, node_id@);
            assert forall|k: int, e: int|
                0 <= k < after.len() && 0 <= e < edges.len() && (#[trigger] edges[e]).0
                    == #[trigger] after[k] implies after.take(k).contains(edges[e].1) by {
                if k < listed.len() {
                    assert(edges[e].0 == listed[k]);
                    assert(listed.take(k).contains(edges[e].1));
                    let m = choose|m: int| 0 <= m < k && listed.take(k)[m] == edges[e].1;
                    assert(after.take(k)[m] == edges[e].1);
                } else {
                    assert(listed.contains(edges[e].1));
                    assert(after.take(k) == listed);
                }
            }
            assert forall|x: Seq<char>| !(after.contains(x) && names(pending@).contains(x)) by {
                if after.contains(x) && pending0.contains(x) {
                    if x == node_id@ {
                        assert(!pending0.contains(node_id@));
                    } else {
                        assert(listed.contains(x) && pending1.contains(x));
                    }
                }
            }
        }
        Ok(())
    }

    /// The order in which the nodes run: every connection leads from an
    /// earlier node to a later one. A cycle that can be reached from a node
    /// is an error; it is reported by one of its nodes, without its path.
    pub fn topological_sort(&self) -> (r: Result<Vec<String>, DomainError>)
        ensures
            self.is_ordering(ordering(r)),
    {
        let ghost edges = self.edges();
        let mut sorted: Vec<String> = Vec::new();
        let mut pending: Vec<String> = Vec::new();
        let mut n: usize = 0;
        while n < self.nodes.len()
            invariant
                n <= self.nodes.len(),
                edges == self.edges(),
                pending@.len() == 0,
                order_state(edges, names(sorted@), names(pending@)),
                self.holds(names(sorted@)),
                self.holds(names(pending@)),
                forall|k: int| 0 <= k < n ==> names(sorted@).contains(#[trigger] self.ids()[k]),
            decreases self.nodes.len() - n,
        {
            let ghost before = names(sorted@);
            if !contains_name(&sorted, self.nodes[n].id.as_str()) {
                proof {
                    lemma_space_holds_ids(self.ids(), edges, n as int);
                    lemma_walk_single(edges, self.ids()[n as int]);
                    assert(self.ids()[n as int] == self.nodes[n as int].id@);
                }
                match self.topological_visit(self.nodes[n].id.as_str(), &mut sorted, &mut pending) {
                    Ok(()) => {},
                    Err(e) => {
                        return Err(e);
                    },
                }
            }
            proof {
                assert(self.ids()[n as int] == self.nodes[n as int].id@);
                assert forall|k: int| 0 <= k < n + 1 implies names(sorted@).contains(
                    #[trigger] self.ids()[k],
                ) by {
                    if k < n {
                        assert(before.contains(self.ids()[k]));
                    }
                }
            }
            n += 1;
        }
        let ghost listed = names(sorted@);
        let order = reversed(sorted);
        proof {
            let o = names(order@);
            let len = listed.len() as int;
            assert(o == listed.reverse());
            assert forall|a: int| 0 <= a < len implies o[a] == listed[len - 1 - a] by {}
            assert forall|a: int, b: int| 0 <= a < len && 0 <= b < len && a != b implies o[a]
                != o[b] by {}
            assert forall|x: Seq<char>| o.contains(x) <==> listed.contains(x) by {
                if o.contains(x) {
                    let w = choose|w: int| 0 <= w < len && o[w] == x;
                    assert(listed[len - 1 - w] == x);
                }
                if listed.contains(x) {
                    let w = choose|w: int| 0 <= w < len && listed[w] == x;
                    assert(o[len - 1 - w] == x);
                }
            }
            lemma_listed_closed(edges, listed);
            assert forall|x: Seq<char>| self.reached(x) implies listed.contains(x) && !on_cycle(
                edges,
                x,
            ) by {
                let k = choose|k: int|
                    0 <= k < self.ids().len() && reaches(edges, #[trigger] self.ids()[k], x);
                assert(listed.contains(self.ids()[k]));
                lemma_reach_stays(edges, listed.to_set(), self.ids()[k], x);
                let w = choose|w: int| 0 <= w < len && listed[w] == x;
                lemma_listed_off_cycle(edges, listed, w);
            }
            assert forall|i: int|
                0 <= i < edges.len() && o.contains((#[trigger] edges[i]).0) implies comes_before(
                o,
                edges[i].0,
                edges[i].1,
            ) by {
                let k = choose|k: int| 0 <= k < len && listed[k] == edges[i].0;
                assert(listed.take(k).contains(edges[i].1));
                let j = choose|j: int| 0 <= j < k && listed.take(k)[j] == edges[i].1;
                assert(o[len - 1 - k] == edges[i].0);
                assert(o[len - 1 - j] == edges[i].1);
            }
        }
        Ok(order)
    }

    /// The other ends of the edges that touch `node_id`: the sources of the
    /// edges into it where `incoming`, else the targets of the edges out of
    /// it. Each id is listed once, in the order of its first connection.
    fn neighbours(&self, node_id: &str, incoming: bool) -> (r: Vec<String>)
        ensures
            names(r@).no_duplicates(),
            forall|x: Seq<char>|
                names(r@).contains(x) <==> self.edges().contains(edge_between(x, node_id@, incoming)),
    {
        let ghost edges = self.edges();
        let mut found: Vec<String> = Vec::new();
        let mut i: usize = 0;
        while i < self.connections.len()
            invariant
                i <= self.connections.len(),
                edges == self.edges(),
                names(found@).no_duplicates(),
                forall|x: Seq<char>|
                    names(found@).contains(x) <==> exists|j: int|
                        0 <= j < i && #[trigger] edges[j] == edge_between(x, node_id@, incoming),
            decreases self.connections.len() - i,
        {
            let ghost before = names(found@);
            let conn = &self.connections[i];
            assert(edges[i as int] == (conn.from_node@, conn.to_node@));
            let (near, far) = if incoming {
                (&conn.to_node, &conn.from_node)
            } else {
                (&conn.from_node, &conn.to_node)
            };
            assert(edges[i as int] == edge_between(far@, near@, incoming));
            if same_text(near.as_str(), node_id) && !contains_name(&found, far.as_str()) {
                found.push(far.clone());
                proof {
                    assert(names(found@) == before.push(far@));
                    lemma_push_holds(before, far@);
                }
            }
            proof {
                let after = names(found@);
                assert forall|x: Seq<char>| after.contains(x) <==> exists|j: int|
                    0 <= j < i + 1 && #[trigger] edges[j] == edge_between(
                        x,
                        node_id@,
                        incoming,
                    ) by {
                    let wanted = edge_between(x, node_id@, incoming);
                    if after.contains(x) {
                        if before.contains(x) {
                            let j = choose|j: int| 0 <= j < i && #[trigger] edges[j] == wanted;
                            assert(0 <= j < i + 1 && edges[j] == wanted);
                        } else {
                            assert(edges[i as int] == wanted);
                        }
                    }
                    if exists|j: int| 0 <= j < i + 1 && #[trigger] edges[j] == wanted {
                        let j = choose|j: int| 0 <= j < i + 1 && #[trigger] edges[j] == wanted;
                        if j < i {
                            assert(before.contains(x));
                        }
                    }
                }
            }
            i += 1;
        }
        proof {
            assert forall|x: Seq<char>| names(found@).contains(x) <==> edges.contains(
                edge_between(x, node_id@, incoming),
            ) by {
                let wanted = edge_between(x, node_id@, incoming);
                if names(found@).contains(x) {
                    let j = choose|j: int| 0 <= j < i && #[trigger] edges[j] == wanted;
                    assert(edges.contains(wanted));
                }
                if edges.contains(wanted) {
                    let j = choose|j: int| 0 <= j < edges.len() && edges[j] == wanted;
                    assert(0 <= j < i && edges[j] == wanted);
                }
            }
        }
        found
    }

    /// The nodes that feed `node_id` directly: the sources of the
    /// connections that end at it, each listed once, in no promised order.
    pub fn get_dependencies(&self, node_id: &str) -> (r: Vec<String>)
        ensures
            names(r@).no_duplicates(),
            forall|x: Seq<char>| names(r@).contains(x) <==> self.edges().contains((x, node_id@)),
    {
        self.neighbours(node_id, true)
    }

    /// The nodes that `node_id` feeds directly: the targets of the
    /// connections that start at it, each listed once, in no promised order.
    pub fn get_dependents(&self, node_id: &str) -> (r: Vec<String>)
        ensures
            names(r@).no_duplicates(),
            forall|x: Seq<char>| names(r@).contains(x) <==> self.edges().contains((node_id@, x)),
    {
        self.neighbours(node_id, false)
    }
}

/// Where every connection starts and ends at a node, the nodes reach
/// nothing but nodes.
pub proof fn lemma_reached_are_nodes(g: NodeGraph, x: Seq<char>)
    requires
        g.endpoints_exist(),
    ensures
        g.reached(x) <==> g.has_node(x),
{
    let edges = g.edges();
    let ids = g.ids();
    if g.reached(x) {
        let k = choose|k: int| 0 <= k < ids.len() && reaches(edges, #[trigger] ids[k], x);
        assert forall|i: int|
            0 <= i < edges.len() && ids.to_set().contains((#[trigger] edges[i]).0) implies ids.to_set().contains(
            edges[i].1,
        ) by {
            assert(g.has_node(g.connections[i].to_node@));
        }
        assert(ids.to_set().contains(ids[k]));
        lemma_reach_stays(edges, ids.to_set(), ids[k], x);
    }
    if g.has_node(x) {
        let k = choose|k: int| 0 <= k < ids.len() && ids[k] == x;
        lemma_walk_single(edges, x);
        assert(reaches(edges, ids[k], x));
    }
}

/// In a graph without a cycle whose connections all start and end at nodes,
/// the ordering succeeds, lists exactly the node ids, each once, and places
/// the source of every connection strictly before its target.
pub proof fn order_respects_connections(g: NodeGraph, answer: Result<Seq<Seq<char>>, DomainFault>)
    requires
        g.is_ordering(answer),
        g.endpoints_exist(),
        !has_cycle(g.edges()),
    ensures
        answer matches Ok(order) && {
            &&& order.no_duplicates()
            &&& forall|x: Seq<char>| order.contains(x) <==> g.has_node(x)
            &&& forall|i: int|
                0 <= i < g.edges().len() ==> comes_before(
                    order,
                    (#[trigger] g.edges()[i]).0,
                    g.edges()[i].1,
                )
        },
{
    let edges = g.edges();
    match answer {
        Ok(order) => {
            assert forall|x: Seq<char>| order.contains(x) <==> g.has_node(x) by {
                lemma_reached_are_nodes(g, x);
            }
            assert forall|i: int| 0 <= i < edges.len() implies comes_before(
                order,
                (#[trigger] edges[i]).0,
                edges[i].1,
            ) by {
                assert(g.has_node(g.connections[i].from_node@));
            }
        },
        Err(fault) => {
            let x = choose|x: Seq<char>|
                fault == DomainFault::Other(#[trigger] cycle_report(x)) && g.reached(x)
                    && on_cycle(edges, x);
            crate::walk::lemma_on_cycle_has_cycle(edges, x);
        },
    }
}

/// In a graph whose connections all start and end at nodes and hold a
/// cycle, the ordering fails.
pub proof fn cyclic_graph_has_no_order(g: NodeGraph, answer: Result<Seq<Seq<char>>, DomainFault>)
    requires
        g.is_ordering(answer),
        g.endpoints_exist(),
        has_cycle(g.edges()),
    ensures
        answer is Err,
{
    let edges = g.edges();
    let c = choose|c: Seq<Seq<char>>| is_cycle(edges, c);
    lemma_cycle_start(edges, c);
    let e = choose|e: int| 0 <= e < edges.len() && (#[trigger] edges[e]).1 == c[0];
    assert(g.has_node(g.connections[e].to_node@));
    lemma_reached_are_nodes(g, c[0]);
}

} // verus!
