//! Validation of a node graph, in three phases that stop at the first
//! failure: every connection ends at nodes that exist; the connections hold
//! no cycle; every required input is fed and every connection joins two
//! existing ports of fitting types.

use crate::error::{
    is_type_compatible, outcome, type_compatible, DomainError, DomainFault, ValidationError,
    ValidationFault,
};
use crate::graph::NodeGraph;
use crate::node::port_named;
use crate::text::{
    contains_name, lemma_find_first_cases, lemma_push_holds, names, position_of, same_text,
};
use crate::walk::{
    closed, edges_of, has_cycle, is_cycle, is_walk, lemma_cycle_start, lemma_on_cycle_next,
    lemma_reach_stays, lemma_walk_push, lemma_walk_single, lemma_walk_suffix, on_cycle,
};
use vstd::prelude::*;

verus! {

/// A node that a search has left behind: seen, and no longer on its path.
pub open spec fn settled(visited: Seq<Seq<char>>, path: Seq<Seq<char>>, x: Seq<char>) -> bool {
    visited.contains(x) && !path.contains(x)
}

/// The nodes that a search has left behind.
pub open spec fn settled_set(visited: Seq<Seq<char>>, path: Seq<Seq<char>>) -> Set<Seq<char>> {
    Set::new(|x: Seq<char>| settled(visited, path, x))
}

/// What holds of a depth-first search between two steps: the path is a walk
/// through nodes that were seen, nothing repeats, no edge leads out of the
/// settled nodes, and none of them lies on a cycle.
pub open spec fn search_state(
    edges: Seq<(Seq<char>, Seq<char>)>,
    visited: Seq<Seq<char>>,
    path: Seq<Seq<char>>,
) -> bool {
    &&& visited.no_duplicates()
    &&& path.no_duplicates()
    &&& forall|x: Seq<char>| path.contains(x) ==> visited.contains(x)
    &&& path.len() > 0 ==> is_walk(edges, path)
    &&& closed(edges, settled_set(visited, path))
    &&& forall|x: Seq<char>| settled(visited, path, x) ==> !on_cycle(edges, x)
}

/// Every id that a search can meet: the node ids and both ends of each edge.
pub open spec fn search_space(ids: Seq<Seq<char>>, edges: Seq<(Seq<char>, Seq<char>)>) -> Seq<
    Seq<char>,
> {
    ids + Seq::new(edges.len(), |i: int| edges[i].0) + Seq::new(edges.len(), |i: int| edges[i].1)
}

/// The ends of every edge lie in the search space.
pub proof fn lemma_space_holds_edges(
    ids: Seq<Seq<char>>,
    edges: Seq<(Seq<char>, Seq<char>)>,
    e: int,
)
    requires
        0 <= e < edges.len(),
    ensures
        search_space(ids, edges).contains(edges[e].0),
        search_space(ids, edges).contains(edges[e].1),
{
    let space = search_space(ids, edges);
    assert(space[ids.len() + e] == edges[e].0);
    assert(space[ids.len() + edges.len() + e] == edges[e].1);
}

/// Every node id lies in the search space.
pub proof fn lemma_space_holds_ids(ids: Seq<Seq<char>>, edges: Seq<(Seq<char>, Seq<char>)>, k: int)
    requires
        0 <= k < ids.len(),
    ensures
        search_space(ids, edges).contains(ids[k]),
{
    assert(search_space(ids, edges)[k] == ids[k]);
}

/// A list without repeats, drawn from `space` and missing one of its
/// members, is shorter than `space` has distinct members.
pub proof fn lemma_room_left(space: Seq<Seq<char>>, visited: Seq<Seq<char>>, x: Seq<char>)
    requires
        visited.no_duplicates(),
        forall|y: Seq<char>| visited.contains(y) ==> space.contains(y),
        space.contains(x),
        !visited.contains(x),
    ensures
        visited.len() < space.to_set().len(),
{
    visited.unique_seq_to_set();
    let seen = visited.to_set();
    let more = seen.insert(x);
    vstd::seq_lib::seq_to_set_is_finite(space);
    vstd::seq_lib::seq_to_set_is_finite(visited);
    assert(more.subset_of(space.to_set()));
    vstd::set_lib::lemma_len_subset(more, space.to_set());
}

/// The strings of `list` from position `k` on, copied.
fn copy_from(list: &Vec<String>, k: usize) -> (r: Vec<String>)
    requires
        k <= list.len(),
    ensures
        names(r@) == names(list@).skip(k as int),
{
    let mut out: Vec<String> = Vec::new();
    let mut i: usize = k;
    while i < list.len()
        invariant
            k <= i <= list.len(),
            out@.len() == i - k,
            forall|j: int| 0 <= j < out@.len() ==> out@[j]@ == list@[k + j]@,
        decreases list.len() - i,
    {
        out.push(list[i].clone());
        i += 1;
    }
    assert(names(out@) =~= names(list@).skip(k as int));
    out
}

impl NodeGraph {
    /// The directed edges that the connections draw between node ids.
    pub open spec fn edges(&self) -> Seq<(Seq<char>, Seq<char>)> {
        edges_of(self.connections@)
    }

    /// Every id that a search of this graph can meet.
    pub open spec fn space(&self) -> Seq<Seq<char>> {
        search_space(self.ids(), self.edges())
    }

    /// Connection `i` ends at port `port` of node `node`.
    pub open spec fn feeds(&self, i: int, node: Seq<char>, port: Seq<char>) -> bool {
        self.connections[i].to_node@ == node && self.connections[i].to_port@ == port
    }

    /// Some connection ends at port `port` of node `node`.
    pub open spec fn is_fed(&self, node: Seq<char>, port: Seq<char>) -> bool {
        exists|i: int| 0 <= i < self.connections.len() && self.feeds(i, node, port)
    }

    /// Connection `i` is the one that counts for its target port: no later
    /// connection ends at the same port. Where several connections end at
    /// one port, only the last of them is checked.
    pub open spec fn counts(&self, i: int) -> bool {
        forall|j: int|
            i < j < self.connections.len() ==> !#[trigger] self.feeds(
                j,
                self.connections[i].to_node@,
                self.connections[i].to_port@,
            )
    }

    /// Input `p` of node `n` is required, and no connection feeds it.
    pub open spec fn unfed_at(&self, n: int, p: int) -> bool {
        !self.nodes[n].inputs[p].optional && !self.is_fed(
            self.nodes[n].id@,
            self.nodes[n].inputs[p].id@,
        )
    }

    /// What is wrong with connection `i` as an input of node `n`, if
    /// anything: its target port, its source node, its source port, and the
    /// fit of the two types are looked at in this order.
    pub open spec fn link_fault(&self, n: int, i: int) -> Option<ValidationFault> {
        let node = self.nodes[n];
        let c = self.connections[i];
        match port_named(node.inputs@, c.to_port@) {
            None => Some(ValidationFault::PortNotFound { node_id: node.id@, port_id: c.to_port@ }),
            Some(target) => match self.node_named(c.from_node@) {
                None => Some(ValidationFault::NodeNotFound { node_id: c.from_node@ }),
                Some(origin) => match port_named(origin.outputs@, c.from_port@) {
                    None => Some(
                        ValidationFault::PortNotFound {
                            node_id: c.from_node@,
                            port_id: c.from_port@,
                        },
                    ),
                    Some(source) => if type_compatible(source.data_type, target.data_type) {
                        None
                    } else {
                        Some(
                            ValidationFault::TypeMismatch {
                                from_node: c.from_node@,
                                from_port: c.from_port@,
                                to_node: c.to_node@,
                                to_port: c.to_port@,
                                expected: target.data_type,
                                actual: source.data_type,
                            },
                        )
                    },
                },
            },
        }
    }

    /// The first required input port of node `n`, from position `p` on, that
    /// no connection feeds.
    pub open spec fn unfed_from(&self, n: int, p: int) -> Option<ValidationFault>
        decreases self.nodes[n].inputs.len() - p,
    {
        let node = self.nodes[n];
        if p < 0 || p >= node.inputs.len() {
            None
        } else if self.unfed_at(n, p) {
            Some(
                ValidationFault::PortNotConnected {
                    node_id: node.id@,
                    port_id: node.inputs[p].id@,
                },
            )
        } else {
            self.unfed_from(n, p + 1)
        }
    }

    /// The first fault among the connections from position `i` on that end
    /// at node `n` and count for their port.
    pub open spec fn link_fault_from(&self, n: int, i: int) -> Option<ValidationFault>
        decreases self.connections.len() - i,
    {
        if i < 0 || i >= self.connections.len() {
            None
        } else if self.connections[i].to_node@ == self.nodes[n].id@ && self.counts(i)
            && self.link_fault(n, i) is Some {
            self.link_fault(n, i)
        } else {
            self.link_fault_from(n, i + 1)
        }
    }

    /// What is wrong at node `n`, if anything: first its required inputs,
    /// then the connections that end at it.
    pub open spec fn node_fault(&self, n: int) -> Option<ValidationFault> {
        match self.unfed_from(n, 0) {
            Some(f) => Some(f),
            None => self.link_fault_from(n, 0),
        }
    }

    /// The fault of the first node, from position `n` on, that has one.
    pub open spec fn port_fault_from(&self, n: int) -> Option<ValidationFault>
        decreases self.nodes.len() - n,
    {
        if n < 0 || n >= self.nodes.len() {
            None
        } else {
            match self.node_fault(n) {
                Some(f) => Some(f),
                None => self.port_fault_from(n + 1),
            }
        }
    }

    /// The first fault of ports and types in the graph, node by node.
    pub open spec fn port_fault(&self) -> Option<ValidationFault> {
        self.port_fault_from(0)
    }

    /// The first id, from connection `i` on, that a connection names and no
    /// node has; of one connection the source is looked at first.
    pub open spec fn missing_endpoint_from(&self, i: int) -> Option<Seq<char>>
        decreases self.connections.len() - i,
    {
        if i < 0 || i >= self.connections.len() {
            None
        } else if !self.has_node(self.connections[i].from_node@) {
            Some(self.connections[i].from_node@)
        } else if !self.has_node(self.connections[i].to_node@) {
            Some(self.connections[i].to_node@)
        } else {
            self.missing_endpoint_from(i + 1)
        }
    }

    /// The first id that a connection names and no node has.
    pub open spec fn missing_endpoint(&self) -> Option<Seq<char>> {
        self.missing_endpoint_from(0)
    }

    /// Whether `verdict` is a right answer of validation. The phases come in
    /// order, and the first failure is the answer: a missing end node, then a
    /// cycle, shown by a chain of distinct nodes that closes, then the first
    /// fault of ports and types.
    pub open spec fn is_verdict(&self, verdict: Result<(), DomainFault>) -> bool {
        match self.missing_endpoint() {
            Some(id) => verdict == Err::<(), DomainFault>(
                DomainFault::Validation(ValidationFault::NodeNotFound { node_id: id }),
            ),
            None => if has_cycle(self.edges()) {
                &&& verdict matches Err(DomainFault::Validation(ValidationFault::CycleDetected { cycle }))
                &&& is_cycle(self.edges(), cycle)
                &&& cycle.no_duplicates()
            } else {
                match self.port_fault() {
                    Some(f) => verdict == Err::<(), DomainFault>(DomainFault::Validation(f)),
                    None => verdict == Ok::<(), DomainFault>(()),
                }
            },
        }
    }

    /// Whether some connection ends at the given port of the given node.
    fn port_is_fed(&self, node_id: &str, port_id: &str) -> (r: bool)
        ensures
            r == self.is_fed(node_id@, port_id@),
    {
        let mut i: usize = 0;
        while i < self.connections.len()
            invariant
                i <= self.connections.len(),
                forall|k: int| 0 <= k < i ==> !self.feeds(k, node_id@, port_id@),
            decreases self.connections.len() - i,
        {
            if same_text(self.connections[i].to_node.as_str(), node_id) && same_text(
                self.connections[i].to_port.as_str(),
                port_id,
            ) {
                assert(self.feeds(i as int, node_id@, port_id@));
                return true;
            }
            i += 1;
        }
        false
    }

    /// Whether no later connection ends at the port where connection `i`
    /// ends.
    fn is_last_into_port(&self, i: usize) -> (r: bool)
        requires
            i < self.connections.len(),
        ensures
            r == self.counts(i as int),
    {
        let mut j: usize = i + 1;
        while j < self.connections.len()
            invariant
                i < j <= self.connections.len(),
                forall|k: int|
                    i < k < j ==> !#[trigger] self.feeds(
                        k,
                        self.connections[i as int].to_node@,
                        self.connections[i as int].to_port@,
                    ),
            decreases self.connections.len() - j,
        {
            if same_text(
                self.connections[j].to_node.as_str(),
                self.connections[i].to_node.as_str(),
            ) && same_text(
                self.connections[j].to_port.as_str(),
                self.connections[i].to_port.as_str(),
            ) {
                assert(self.feeds(
                    j as int,
                    self.connections[i as int].to_node@,
                    self.connections[i as int].to_port@,
                ));
                return false;
            }
            j += 1;
        }
        true
    }

    /// Checks connection `i` as an input of node `n`.
    fn check_link(&self, n: usize, i: usize) -> (r: Result<(), ValidationError>)
        requires
            n < self.nodes.len(),
            i < self.connections.len(),
        ensures
            match r {
                Ok(()) => self.link_fault(n as int, i as int) is None,
                Err(e) => self.link_fault(n as int, i as int) == Some(e@),
            },
    {
        let node = &self.nodes[n];
        let conn = &self.connections[i];
        let target = match node.get_input(conn.to_port.as_str()) {
            Some(port) => port,
            None => {
                return Err(
                    ValidationError::PortNotFound {
                        node_id: node.id.clone(),
                        port_id: conn.to_port.clone(),
                    },
                );
            },
        };
        let origin = match self.get_node(conn.from_node.as_str()) {
            Some(found) => found,
            None => {
                return Err(ValidationError::NodeNotFound { node_id: conn.from_node.clone() });
            },
        };
        let source = match origin.get_output(conn.from_port.as_str()) {
            Some(port) => port,
            None => {
                return Err(
                    ValidationError::PortNotFound {
                        node_id: conn.from_node.clone(),
                        port_id: conn.from_port.clone(),
                    },
                );
            },
        };
        if !is_type_compatible(source.data_type, target.data_type) {
            return Err(
                ValidationError::TypeMismatch {
                    from_node: conn.from_node.clone(),
                    from_port: conn.from_port.clone(),
                    to_node: conn.to_node.clone(),
                    to_port: conn.to_port.clone(),
                    expected: target.data_type,
                    actual: source.data_type,
                },
            );
        }
        Ok(())
    }

    /// Checks ports and types, node by node: every required input must be
    /// fed, and every connection that counts must join an existing output to
    /// an existing input of a fitting type.
    fn validate_ports(&self) -> (r: Result<(), DomainError>)
        ensures
            match r {
                Ok(()) => self.port_fault() is None,
                Err(e) => self.port_fault() matches Some(f) && e@ == DomainFault::Validation(f),
            },
    {
        let mut n: usize = 0;
        while n < self.nodes.len()
            invariant
                n <= self.nodes.len(),
                self.port_fault() == self.port_fault_from(n as int),
            decreases self.nodes.len() - n,
        {
            let node = &self.nodes[n];
            let mut p: usize = 0;
            while p < node.inputs.len()
                invariant
                    n < self.nodes.len(),
                    *node == self.nodes[n as int],
                    p <= node.inputs.len(),
                    self.unfed_from(n as int, 0) == self.unfed_from(n as int, p as int),
                    self.port_fault() == self.port_fault_from(n as int),
                decreases node.inputs.len() - p,
            {
                let port = &node.inputs[p];
                if !port.optional && !self.port_is_fed(node.id.as_str(), port.id.as_str()) {
                    return Err(
                        DomainError::Validation(
                            ValidationError::PortNotConnected {
                                node_id: node.id.clone(),
                                port_id: port.id.clone(),
                            },
                        ),
                    );
                }
                p += 1;
            }
            let mut i: usize = 0;
            while i < self.connections.len()
                invariant
                    n < self.nodes.len(),
                    *node == self.nodes[n as int],
                    i <= self.connections.len(),
                    self.unfed_from(n as int, 0) is None,
                    self.link_fault_from(n as int, 0) == self.link_fault_from(n as int, i as int),
                    self.port_fault() == self.port_fault_from(n as int),
                decreases self.connections.len() - i,
            {
                if same_text(self.connections[i].to_node.as_str(), node.id.as_str())
                    && self.is_last_into_port(i) {
                    match self.check_link(n, i) {
                        Ok(()) => {},
                        Err(e) => {
                            return Err(DomainError::Validation(e));
                        },
                    }
                }
                i += 1;
            }
            n += 1;
        }
        Ok(())
    }

    /// Validates the graph. The answer is the first failure in this order:
    /// a connection whose source or target node does not exist; a cycle; a
    /// fault of ports and types.
    pub fn validate(&self) -> (r: Result<(), DomainError>)
        ensures
            self.is_verdict(outcome(r)),
    {
        let mut i: usize = 0;
        while i < self.connections.len()
            invariant
                i <= self.connections.len(),
                self.missing_endpoint() == self.missing_endpoint_from(i as int),
                forall|k: int|
                    0 <= k < i ==> self.has_node((#[trigger] self.connections[k]).from_node@)
                        && self.has_node(self.connections[k].to_node@),
            decreases self.connections.len() - i,
        {
            let conn = &self.connections[i];
            if !self.contains_node(conn.from_node.as_str()) {
                return Err(
                    DomainError::Validation(
                        ValidationError::NodeNotFound { node_id: conn.from_node.clone() },
                    ),
                );
            }
            if !self.contains_node(conn.to_node.as_str()) {
                return Err(
                    DomainError::Validation(
                        ValidationError::NodeNotFound { node_id: conn.to_node.clone() },
                    ),
                );
            }
            i += 1;
        }
        match self.detect_cycle() {
            Some(cycle) => {
                return Err(DomainError::Validation(ValidationError::CycleDetected { cycle }));
            },
            None => {},
        }
        self.validate_ports()
    }

    /// Searches depth-first from `node_id`, which has not been seen. A cycle
    /// shows when an edge leads back to a node of the current path; it is
    /// reported as the part of the path from that node on. Without a cycle
    /// the node and all that it reaches end up settled.
    fn dfs_detect_cycle(
        &self,
        node_id: &str,
        visited: &mut Vec<String>,
        path: &mut Vec<String>,
    ) -> (r: Option<Vec<String>>)
        requires
            search_state(self.edges(), names(old(visited)@), names(old(path)@)),
            forall|y: Seq<char>| names(old(visited)@).contains(y) ==> self.space().contains(y),
            self.space().contains(node_id@),
            !names(old(visited)@).contains(node_id@),
            old(path)@.len() > 0 ==> self.edges().contains(
                (names(old(path)@).last(), node_id@),
            ),
        ensures
            match r {
                Some(c) => is_cycle(self.edges(), names(c@)) && names(c@).no_duplicates(),
                None => {
                    &&& names(final(path)@) == names(old(path)@)
                    &&& search_state(self.edges(), names(final(visited)@), names(final(path)@))
                    &&& forall|y: Seq<char>|
                        names(final(visited)@).contains(y) ==> self.space().contains(y)
                    &&& forall|y: Seq<char>|
                        names(old(visited)@).contains(y) ==> names(final(visited)@).contains(y)
                    &&& names(final(visited)@).contains(node_id@)
                    &&& final(visited)@.len() > old(visited)@.len()
                },
            },
        decreases self.space().to_set().len() - old(visited)@.len(),
    {
        let ghost edges = self.edges();
        let ghost seen0 = names(visited@);
        let ghost path0 = names(path@);
        visited.push(node_id.to_owned());
        path.push(node_id.to_owned());
        proof {
            let seen1 = names(visited@);
            let path1 = names(path@);
            assert(seen1 == seen0.push(node_id@));
            assert(path1 == path0.push(node_id@));
            lemma_push_holds(seen0, node_id@);
            lemma_push_holds(path0, node_id@);
            if path0.len() == 0 {
                lemma_walk_single(edges, node_id@);
                assert(path1 == seq![node_id@]);
            } else {
                lemma_walk_push(edges, path0, node_id@);
            }
            assert(settled_set(seen1, path1) =~= settled_set(seen0, path0));
        }
        let mut i: usize = 0;
        while i < self.connections.len()
            invariant
                i <= self.connections.len(),
                edges == self.edges(),
                names(path@) == path0.push(node_id@),
                search_state(edges, names(visited@), names(path@)),
                forall|y: Seq<char>| names(visited@).contains(y) ==> self.space().contains(y),
                forall|y: Seq<char>| seen0.contains(y) ==> names(visited@).contains(y),
                names(visited@).contains(node_id@),
                forall|j: int|
                    0 <= j < i && (#[trigger] edges[j]).0 == node_id@ ==> settled(
                        names(visited@),
                        names(path@),
                        edges[j].1,
                    ),
                visited@.len() > old(visited)@.len(),
            decreases self.connections.len() - i,
        {
            let ghost seen_before = names(visited@);
            let ghost path1 = names(path@);
            let conn = &self.connections[i];
            assert(edges[i as int] == (conn.from_node@, conn.to_node@));
            if same_text(conn.from_node.as_str(), node_id) {
                if !contains_name(visited, conn.to_node.as_str()) {
                    proof {
                        lemma_space_holds_edges(self.ids(), edges, i as int);
                        lemma_room_left(self.space(), names(visited@), conn.to_node@);
                        assert(path1.last() == node_id@);
                    }
                    match self.dfs_detect_cycle(conn.to_node.as_str(), visited, path) {
                        Some(cycle) => {
                            return Some(cycle);
                        },
                        None => {},
                    }
                    proof {
                        let seen_after = names(visited@);
                        assert(names(path@) == path1);
                        assert(!path1.contains(conn.to_node@));
                        assert forall|j: int|
                            0 <= j < i + 1 && (#[trigger] edges[j]).0 == node_id@ implies settled(
                            seen_after,
                            path1,
                            edges[j].1,
                        ) by {
                            if j < i {
                                assert(settled(seen_before, path1, edges[j].1));
                            }
                        }
                    }
                } else {
                    match position_of(path, conn.to_node.as_str()) {
                        Some(k) => {
                            let cycle = copy_from(path, k);
                            proof {
                                lemma_find_first_cases(path1, conn.to_node@);
                                lemma_walk_suffix(edges, path1, k as int);
                                let c = names(cycle@);
                                assert(c == path1.skip(k as int));
                                assert(c.last() == node_id@);
                                assert(c[0] == conn.to_node@);
                                assert(edges.contains((c.last(), c[0])));
                                assert forall|a: int, b: int|
                                    0 <= a < c.len() && 0 <= b < c.len() && a != b implies c[a]
                                    != c[b] by {
                                    assert(path1[a + k] != path1[b + k]);
                                }
                            }
                            return Some(cycle);
                        },
                        None => {
                            proof {
                                lemma_find_first_cases(path1, conn.to_node@);
                                assert(!path1.contains(conn.to_node@));
                            }
                        },
                    }
                }
            }
            i += 1;
        }
        let ghost full = path@;
        path.pop();
        proof {
            let seen = names(visited@);
            let path1 = path0.push(node_id@);
            assert(path@ == full.drop_last());
            assert(names(full) == path1);
            assert forall|j: int| 0 <= j < path0.len() implies names(path@)[j] == path0[j] by {
                assert(names(full)[j] == path1[j]);
            }
            assert(names(path@) =~= path0);
            lemma_push_holds(path0, node_id@);
            assert(!settled(seen, path1, node_id@));
            assert forall|e: int|
                0 <= e < edges.len() && settled_set(seen, path0).contains(
                    (#[trigger] edges[e]).0,
                ) implies settled_set(seen, path0).contains(edges[e].1) by {
                if edges[e].0 == node_id@ {
                    assert(settled(seen, path1, edges[e].1));
                } else {
                    assert(settled_set(seen, path1).contains(edges[e].0));
                    assert(settled_set(seen, path1).contains(edges[e].1));
                }
            }
            assert forall|x: Seq<char>| settled(seen, path0, x) implies !on_cycle(edges, x) by {
                if x == node_id@ {
                    if on_cycle(edges, x) {
                        let next = lemma_on_cycle_next(edges, x);
                        let e = choose|e: int| 0 <= e < edges.len() && edges[e] == (x, next);
                        assert(settled(seen, path1, edges[e].1));
                        assert(settled_set(seen, path1).contains(next));
                        lemma_reach_stays(edges, settled_set(seen, path1), next, x);
                    }
                } else {
                    assert(settled(seen, path1, x));
                }
            }
        }
        None
    }

    /// Looks for a cycle, searching from every node that an earlier search
    /// has not reached.
    fn detect_cycle(&self) -> (r: Option<Vec<String>>)
        requires
            self.endpoints_exist(),
        ensures
            match r {
                Some(c) => is_cycle(self.edges(), names(c@)) && names(c@).no_duplicates(),
                None => !has_cycle(self.edges()),
            },
    {
        let ghost edges = self.edges();
        let mut visited: Vec<String> = Vec::new();
        let mut path: Vec<String> = Vec::new();
        proof {
            assert(settled_set(names(visited@), names(path@)) =~= Set::empty());
        }
        let mut n: usize = 0;
        while n < self.nodes.len()
            invariant
                n <= self.nodes.len(),
                edges == self.edges(),
                path@.len() == 0,
                search_state(edges, names(visited@), names(path@)),
                forall|y: Seq<char>| names(visited@).contains(y) ==> self.space().contains(y),
                forall|k: int| 0 <= k < n ==> names(visited@).contains(#[trigger] self.ids()[k]),
            decreases self.nodes.len() - n,
        {
            let ghost seen_before = names(visited@);
            if !contains_name(&visited, self.nodes[n].id.as_str()) {
                proof {
                    lemma_space_holds_ids(self.ids(), edges, n as int);
                }
                match self.dfs_detect_cycle(self.nodes[n].id.as_str(), &mut visited, &mut path) {
                    Some(cycle) => {
                        return Some(cycle);
                    },
                    None => {},
                }
            }
            proof {
                assert(self.ids()[n as int] == self.nodes[n as int].id@);
                assert forall|k: int| 0 <= k < n + 1 implies names(visited@).contains(
                    #[trigger] self.ids()[k],
                ) by {
                    if k < n {
                        assert(seen_before.contains(self.ids()[k]));
                    }
                }
            }
            n += 1;
        }
        proof {
            if has_cycle(edges) {
                let c = choose|c: Seq<Seq<char>>| is_cycle(edges, c);
                lemma_cycle_start(edges, c);
                let e = choose|e: int| 0 <= e < edges.len() && (#[trigger] edges[e]).1 == c[0];
                assert(self.has_node(self.connections[e].to_node@));
                let k = choose|k: int| 0 <= k < self.ids().len() && self.ids()[k] == c[0];
                assert(names(visited@).contains(self.ids()[k]));
                assert(settled(names(visited@), names(path@), c[0]));
            }
        }
        None
    }
}

/// From connection `i` on, no end node is missing exactly when every
/// connection from there on starts and ends at a node of the graph.
pub proof fn lemma_missing_endpoint(g: NodeGraph, i: int)
    requires
        0 <= i <= g.connections.len(),
    ensures
        g.missing_endpoint_from(i) is None <==> forall|k: int|
            i <= k < g.connections.len() ==> g.has_node(
                (#[trigger] g.connections[k]).from_node@,
            ) && g.has_node(g.connections[k].to_node@),
    decreases g.connections.len() - i,
{
    if i < g.connections.len() {
        lemma_missing_endpoint(g, i + 1);
    }
}

/// The first phase passes exactly on the graphs whose connections all start
/// and end at nodes that exist.
pub proof fn first_phase_is_referential_integrity(g: NodeGraph)
    ensures
        g.missing_endpoint() is None <==> g.endpoints_exist(),
{
    lemma_missing_endpoint(g, 0);
}

/// A graph whose connections hold a cycle, and all end at nodes that exist,
/// fails validation with `CycleDetected`. The reported chain is a cycle of
/// the graph: its members are nodes of the graph, each has an edge to the
/// next, the last one back to the first, and none occurs twice.
pub proof fn cyclic_graph_is_rejected(g: NodeGraph, verdict: Result<(), DomainFault>)
    requires
        g.is_verdict(verdict),
        g.endpoints_exist(),
        has_cycle(g.edges()),
    ensures
        verdict matches Err(DomainFault::Validation(ValidationFault::CycleDetected { cycle })) && {
            &&& is_cycle(g.edges(), cycle)
            &&& cycle.no_duplicates()
            &&& forall|k: int| 0 <= k < cycle.len() ==> g.has_node(#[trigger] cycle[k])
        },
{
    first_phase_is_referential_integrity(g);
    let edges = g.edges();
    if let Err(DomainFault::Validation(ValidationFault::CycleDetected { cycle })) = verdict {
        assert forall|k: int| 0 <= k < cycle.len() implies g.has_node(#[trigger] cycle[k]) by {
            if k == 0 {
                let e = choose|e: int| 0 <= e < edges.len() && edges[e] == (cycle.last(), cycle[0]);
                assert(g.has_node(g.connections[e].to_node@));
            } else {
                assert(crate::walk::links(edges, cycle, k - 1));
                let e = choose|e: int|
                    0 <= e < edges.len() && edges[e] == (cycle[k - 1], cycle[k]);
                assert(g.has_node(g.connections[e].to_node@));
            }
        }
    }
}

/// Two nodes joined in both directions form a cycle.
pub proof fn there_and_back_is_a_cycle(g: NodeGraph, a: Seq<char>, b: Seq<char>)
    requires
        g.edges().contains((a, b)),
        g.edges().contains((b, a)),
    ensures
        has_cycle(g.edges()),
{
    let c = seq![a, b];
    assert forall|i: int| 0 <= i < c.len() - 1 implies #[trigger] crate::walk::links(
        g.edges(),
        c,
        i,
    ) by {
        assert(c[0] == a && c[1] == b);
    }
    assert(c.last() == b && c[0] == a);
    assert(is_cycle(g.edges(), c));
}

/// Validation never reports a cycle for a graph that has none.
pub proof fn acyclic_graph_passes_cycle_phase(g: NodeGraph, verdict: Result<(), DomainFault>)
    requires
        g.is_verdict(verdict),
        !has_cycle(g.edges()),
    ensures
        !(verdict matches Err(DomainFault::Validation(ValidationFault::CycleDetected { .. }))),
{
    lemma_port_fault_kinds(g, 0);
}

/// A fault of ports and types that says `PortNotConnected` names a node of
/// the graph and one of its required inputs that no connection feeds.
pub proof fn lemma_port_fault_kinds(g: NodeGraph, n: int)
    requires
        0 <= n <= g.nodes.len(),
    ensures
        g.port_fault_from(n) matches Some(f) ==> !(f is CycleDetected),
        g.port_fault_from(n) matches Some(ValidationFault::PortNotConnected { node_id, port_id })
            ==> exists|m: int, p: int|
            n <= m < g.nodes.len() && 0 <= p < g.nodes[m].inputs.len() && g.unfed_at(m, p)
                && node_id == g.nodes[m].id@ && port_id == g.nodes[m].inputs[p].id@,
    decreases g.nodes.len() - n,
{
    if n < g.nodes.len() {
        lemma_port_fault_kinds(g, n + 1);
        lemma_unfed_from(g, n, 0);
        lemma_link_fault_from(g, n, 0);
    }
}

/// The scan of a node's inputs from position `p` on finds nothing exactly
/// when every required input from there on is fed, and what it finds is an
/// input that is required and not fed.
pub proof fn lemma_unfed_from(g: NodeGraph, n: int, p: int)
    requires
        0 <= n < g.nodes.len(),
        0 <= p <= g.nodes[n].inputs.len(),
    ensures
        g.unfed_from(n, p) is None <==> forall|q: int|
            p <= q < g.nodes[n].inputs.len() ==> !g.unfed_at(n, q),
        g.unfed_from(n, p) matches Some(f) ==> exists|q: int|
            p <= q < g.nodes[n].inputs.len() && g.unfed_at(n, q) && f
                == (ValidationFault::PortNotConnected {
                node_id: g.nodes[n].id@,
                port_id: g.nodes[n].inputs[q].id@,
            }),
    decreases g.nodes[n].inputs.len() - p,
{
    if p < g.nodes[n].inputs.len() {
        lemma_unfed_from(g, n, p + 1);
        if g.unfed_at(n, p) {
        } else if g.unfed_from(n, p) is Some {
            let q = choose|q: int|
                p + 1 <= q < g.nodes[n].inputs.len() && g.unfed_at(n, q) && g.unfed_from(n, p + 1)
                    == Some(
                    ValidationFault::PortNotConnected {
                        node_id: g.nodes[n].id@,
                        port_id: g.nodes[n].inputs[q].id@,
                    },
                );
            assert(p <= q < g.nodes[n].inputs.len() && g.unfed_at(n, q));
        }
    }
}

/// The scan of the connections into a node never says `PortNotConnected`
/// nor `CycleDetected`.
pub proof fn lemma_link_fault_from(g: NodeGraph, n: int, i: int)
    requires
        0 <= n < g.nodes.len(),
        0 <= i <= g.connections.len(),
    ensures
        g.link_fault_from(n, i) matches Some(f) ==> !(f is PortNotConnected) && !(f
            is CycleDetected),
    decreases g.connections.len() - i,
{
    if i < g.connections.len() {
        lemma_link_fault_from(g, n, i + 1);
    }
}

/// The scan of the connections into node `n` from position `i` on finds
/// nothing exactly when every connection from there on that ends at the node
/// and counts for its port is without fault.
pub proof fn lemma_link_faults_none(g: NodeGraph, n: int, i: int)
    requires
        0 <= n < g.nodes.len(),
        0 <= i <= g.connections.len(),
    ensures
        g.link_fault_from(n, i) is None <==> forall|k: int|
            i <= k < g.connections.len() && (#[trigger] g.connections[k]).to_node@
                == g.nodes[n].id@ && g.counts(k) ==> g.link_fault(n, k) is None,
    decreases g.connections.len() - i,
{
    if i < g.connections.len() {
        lemma_link_faults_none(g, n, i + 1);
        if g.link_fault_from(n, i) is None {
            assert forall|k: int|
                i <= k < g.connections.len() && (#[trigger] g.connections[k]).to_node@
                    == g.nodes[n].id@ && g.counts(k) implies g.link_fault(n, k) is None by {
                if k > i {
                    assert(i + 1 <= k);
                }
            }
        }
    }
}

/// The scan of the nodes from position `n` on finds nothing exactly when no
/// node from there on has a fault.
pub proof fn lemma_port_faults_none(g: NodeGraph, n: int)
    requires
        0 <= n <= g.nodes.len(),
    ensures
        g.port_fault_from(n) is None <==> forall|m: int|
            n <= m < g.nodes.len() ==> #[trigger] g.node_fault(m) is None,
    decreases g.nodes.len() - n,
{
    if n < g.nodes.len() {
        lemma_port_faults_none(g, n + 1);
        if g.port_fault_from(n) is None {
            assert forall|m: int| n <= m < g.nodes.len() implies #[trigger] g.node_fault(m)
                is None by {
                if m > n {
                    assert(n + 1 <= m);
                }
            }
        }
    }
}

/// Node `n` is without fault: each of its required inputs is fed, and each
/// connection that ends at it and counts for its port joins two existing
/// ports of fitting types.
pub open spec fn node_is_sound(g: NodeGraph, n: int) -> bool {
    &&& forall|p: int| 0 <= p < g.nodes[n].inputs.len() ==> !#[trigger] g.unfed_at(n, p)
    &&& forall|k: int|
        0 <= k < g.connections.len() && (#[trigger] g.connections[k]).to_node@ == g.nodes[n].id@
            && g.counts(k) ==> g.link_fault(n, k) is None
}

/// Validation succeeds exactly on the graphs in which every connection
/// starts and ends at a node, the connections hold no cycle, and every node
/// is without fault.
pub proof fn valid_graphs(g: NodeGraph)
    ensures
        g.is_verdict(Ok(())) <==> g.endpoints_exist() && !has_cycle(g.edges()) && forall|n: int|
            0 <= n < g.nodes.len() ==> #[trigger] node_is_sound(g, n),
{
    first_phase_is_referential_integrity(g);
    lemma_port_faults_none(g, 0);
    assert forall|n: int| 0 <= n < g.nodes.len() implies (g.node_fault(n) is None
        <==> #[trigger] node_is_sound(g, n)) by {
        lemma_unfed_from(g, n, 0);
        lemma_link_faults_none(g, n, 0);
    }
    if g.port_fault() is None {
        assert forall|n: int| 0 <= n < g.nodes.len() implies #[trigger] node_is_sound(g, n) by {
            assert(g.node_fault(n) is None);
        }
    }
    if forall|n: int| 0 <= n < g.nodes.len() ==> #[trigger] node_is_sound(g, n) {
        assert forall|m: int| 0 <= m < g.nodes.len() implies #[trigger] g.node_fault(m)
            is None by {
            assert(node_is_sound(g, m));
        }
    }
}

/// A required input port that no connection feeds makes validation fail,
/// and `PortNotConnected` is what the check of its node says.
pub proof fn unfed_required_input_is_rejected(
    g: NodeGraph,
    n: int,
    p: int,
    verdict: Result<(), DomainFault>,
)
    requires
        0 <= n < g.nodes.len(),
        0 <= p < g.nodes[n].inputs.len(),
        g.unfed_at(n, p),
        g.is_verdict(verdict),
    ensures
        verdict is Err,
        g.node_fault(n) matches Some(ValidationFault::PortNotConnected { node_id, .. })
            && node_id == g.nodes[n].id@,
{
    lemma_unfed_from(g, n, 0);
    lemma_node_fault_shows(g, 0, n);
}

/// A fault at node `n` shows in the scan from any node at or before it.
pub proof fn lemma_node_fault_shows(g: NodeGraph, from: int, n: int)
    requires
        0 <= from <= n < g.nodes.len(),
        g.node_fault(n) is Some,
    ensures
        g.port_fault_from(from) is Some,
    decreases n - from,
{
    if from < n {
        lemma_node_fault_shows(g, from + 1, n);
    }
}

/// Where every input port that no connection feeds is optional, validation
/// never says `PortNotConnected`.
pub proof fn optional_inputs_may_stay_unfed(g: NodeGraph, verdict: Result<(), DomainFault>)
    requires
        forall|n: int, p: int|
            0 <= n < g.nodes.len() && 0 <= p < g.nodes[n].inputs.len() ==> !#[trigger] g.unfed_at(
                n,
                p,
            ),
        g.is_verdict(verdict),
    ensures
        !(verdict matches Err(DomainFault::Validation(ValidationFault::PortNotConnected { .. }))),
{
    lemma_port_fault_kinds(g, 0);
}

} // verus!
