//! The node graph: nodes with unique ids, the connections between them, and
//! the settings that travel with a graph. Nodes and connections change only
//! through `add_node`, `remove_node` and `add_connection`, which keep the ids
//! unique and every connection attached to nodes that exist.

use crate::connection::Connection;
use crate::error::{DomainError, DomainFault, ValidationError, ValidationFault};
use crate::media_type::MediaType;
use crate::node::Node;
use crate::text::{
    find_first, lemma_filter_step, lemma_find_first, lemma_find_first_cases, same_text,
};
use std::collections::HashMap;
use vstd::prelude::*;

verus! {

/// Descriptive data of a rule.
#[derive(Debug, Clone)]
pub struct Meta {
    /// The rule's name.
    pub name: Option<String>,
    /// What the rule does.
    pub description: Option<String>,
    /// The rule's version.
    pub version: Option<String>,
    /// Who wrote it.
    pub author: Option<String>,
    /// The site it is written for.
    pub website: Option<String>,
    /// An icon for it.
    pub icon: Option<String>,
    /// Free tags.
    pub tags: Vec<String>,
    /// Any further fields, kept as they came.
    pub extra: HashMap<String, serde_json::Value>,
}

impl Default for Meta {
    fn default() -> (m: Meta)
        ensures
            m.name is None,
            m.description is None,
            m.version is None,
            m.author is None,
            m.website is None,
            m.icon is None,
            m.tags@.len() == 0,
            m.extra@.len() == 0,
    {
        Meta {
            name: None,
            description: None,
            version: None,
            author: None,
            website: None,
            icon: None,
            tags: Vec::new(),
            extra: HashMap::new(),
        }
    }
}

/// Proxy settings.
#[derive(Debug, Clone)]
pub struct ProxyConfig {
    /// The proxy's address.
    pub url: String,
    /// The user to log in as, if the proxy asks for one.
    pub username: Option<String>,
    /// That user's password.
    pub password: Option<String>,
}

/// Where cookies are kept.
#[derive(Debug, Clone, PartialEq, Eq, Structural)]
pub enum CookieStorage {
    /// In memory, for one session.
    Memory,
    /// In a file, across sessions.
    File,
    /// Nowhere: cookies are not kept.
    Nowhere,
}

impl Default for CookieStorage {
    fn default() -> (r: CookieStorage)
        ensures
            r == CookieStorage::Memory,
    {
        CookieStorage::Memory
    }
}

/// Cookie settings.
#[derive(Debug, Clone)]
pub struct CookieConfig {
    /// Whether cookies are used at all.
    pub enabled: bool,
    /// Where they are kept.
    pub storage: CookieStorage,
}

/// HTTP settings.
#[derive(Debug, Clone)]
pub struct HttpConfig {
    /// Headers sent with every request.
    pub headers: HashMap<String, String>,
    /// The time allowed for a request, in milliseconds.
    pub timeout: Option<u64>,
    /// How often a failed request is tried again.
    pub retry: usize,
    /// The user agent to send.
    pub user_agent: Option<String>,
    /// The proxy to go through.
    pub proxy: Option<ProxyConfig>,
    /// How cookies are handled.
    pub cookie: Option<CookieConfig>,
}

/// Which HTTP responses are cached.
#[derive(Debug, Clone, PartialEq, Eq, Structural)]
pub enum HttpCachePolicy {
    /// None of them.
    Never,
    /// Those that the response headers allow.
    RespectHeaders,
    /// All.
    Force,
    /// Those that the kind of response suggests.
    Smart,
}

impl Default for HttpCachePolicy {
    fn default() -> (r: HttpCachePolicy)
        ensures
            r == HttpCachePolicy::Smart,
    {
        HttpCachePolicy::Smart
    }
}

/// Where cached data is kept.
#[derive(Debug, Clone, PartialEq, Eq, Structural)]
pub enum CacheStorage {
    /// In memory.
    Memory,
    /// In files.
    File,
    /// In memory and in files.
    Hybrid,
}

impl Default for CacheStorage {
    fn default() -> (r: CacheStorage)
        ensures
            r == CacheStorage::Memory,
    {
        CacheStorage::Memory
    }
}

/// Cache settings.
#[derive(Debug, Clone)]
pub struct CacheConfig {
    /// Which HTTP responses are cached.
    pub http_cache: HttpCachePolicy,
    /// Where cached data is kept.
    pub storage: CacheStorage,
}

/// When and how a failed request is tried again.
#[derive(Debug, Clone)]
pub struct RetryPolicy {
    /// How often at most.
    pub max_retries: usize,
    /// The pause before a new try, in milliseconds.
    pub delay_ms: u64,
    /// Whether the pause doubles with each try.
    pub exponential_backoff: bool,
    /// The status codes that call for a new try.
    pub retry_on_status: Vec<u16>,
}

/// How many requests run at once, and how they are spaced.
#[derive(Debug, Clone)]
pub struct ConcurrencyConfig {
    /// The most requests at once; unlimited where absent.
    pub max_concurrent: Option<usize>,
    /// The pause between requests, in milliseconds.
    pub delay_ms: Option<u64>,
    /// The bounds of a random extra pause, in milliseconds.
    pub random_delay_ms: Option<(u64, u64)>,
    /// When and how a failed request is tried again.
    pub retry: Option<RetryPolicy>,
}

/// The media type of a graph where none is given.
pub fn default_media_type() -> (r: MediaType)
    ensures
        r == MediaType::General,
{
    MediaType::General
}

/// The value of a switch that is on unless it is turned off.
pub fn default_true() -> (r: bool)
    ensures
        r,
{
    true
}

/// How often a request is tried again where nothing is given.
pub fn default_max_retries() -> (r: usize)
    ensures
        r == 3,
{
    3
}

/// The pause before a new try where nothing is given, in milliseconds.
pub fn default_retry_delay() -> (r: u64)
    ensures
        r == 1000,
{
    1000
}

/// The status codes that call for a new try where nothing is given.
pub fn default_retry_on_status() -> (r: Vec<u16>)
    ensures
        r@ == seq![500u16, 502u16, 503u16, 504u16, 521u16, 522u16, 524u16],
{
    let mut codes: Vec<u16> = Vec::new();
    codes.push(500);
    codes.push(502);
    codes.push(503);
    codes.push(504);
    codes.push(521);
    codes.push(522);
    codes.push(524);
    codes
}

/// The settings that travel with a graph.
#[derive(Debug, Clone)]
pub struct GraphConfig {
    /// The kind of media that the graph is for.
    pub media_type: MediaType,
    /// Descriptive data.
    pub meta: Meta,
    /// HTTP settings, where the graph has its own.
    pub http: Option<HttpConfig>,
    /// Cache settings, where the graph has its own.
    pub cache: Option<CacheConfig>,
    /// Concurrency settings, where the graph has its own.
    pub concurrency: Option<ConcurrencyConfig>,
}

impl GraphConfig {
    /// Whether nothing but the media type is set.
    pub open spec fn is_plain(&self) -> bool {
        &&& self.meta.name is None
        &&& self.meta.description is None
        &&& self.meta.version is None
        &&& self.meta.author is None
        &&& self.meta.website is None
        &&& self.meta.icon is None
        &&& self.meta.tags@.len() == 0
        &&& self.meta.extra@.len() == 0
        &&& self.http is None
        &&& self.cache is None
        &&& self.concurrency is None
    }
}

impl Default for GraphConfig {
    fn default() -> (c: GraphConfig)
        ensures
            c.media_type == MediaType::General,
            c.is_plain(),
    {
        GraphConfig {
            media_type: default_media_type(),
            meta: Meta::default(),
            http: None,
            cache: None,
            concurrency: None,
        }
    }
}

/// A graph of nodes and the connections between them.
#[derive(Debug, Clone)]
pub struct NodeGraph {
    /// The nodes. No two of them share an id.
    pub nodes: Vec<Node>,
    /// The connections, in the order in which they were added.
    pub connections: Vec<Connection>,
    /// The settings that travel with the graph.
    pub config: GraphConfig,
}

/// The ids of a list of nodes, in order.
pub open spec fn node_ids(nodes: Seq<Node>) -> Seq<Seq<char>> {
    Seq::new(nodes.len(), |i: int| nodes[i].id@)
}

/// The canonical keys of a list of connections, in order.
pub open spec fn connection_keys(connections: Seq<Connection>) -> Seq<Seq<char>> {
    Seq::new(connections.len(), |i: int| connections[i].key_text())
}

/// Whether a connection has `id` at neither end.
pub open spec fn avoids(c: Connection, id: Seq<char>) -> bool {
    c.from_node@ != id && c.to_node@ != id
}

/// The connections that have `id` at neither end, in their order.
pub open spec fn without(connections: Seq<Connection>, id: Seq<char>) -> Seq<Connection> {
    connections.filter(|c: Connection| avoids(c, id))
}

/// What is kept has the id at neither end; whatever has the id at neither
/// end is kept; and nothing is kept that was not there.
proof fn lemma_without(connections: Seq<Connection>, id: Seq<char>)
    ensures
        forall|i: int|
            0 <= i < without(connections, id).len() ==> avoids(
                #[trigger] without(connections, id)[i],
                id,
            ),
        forall|i: int|
            0 <= i < connections.len() && avoids(#[trigger] connections[i], id) ==> without(
                connections,
                id,
            ).contains(connections[i]),
        forall|c: Connection| #[trigger]
            without(connections, id).contains(c) ==> connections.contains(c),
{
    let keep = |c: Connection| avoids(c, id);
    assert forall|i: int| 0 <= i < without(connections, id).len() implies avoids(
        #[trigger] without(connections, id)[i],
        id,
    ) by {
        connections.lemma_filter_pred(keep, i);
    }
    assert forall|i: int|
        0 <= i < connections.len() && avoids(#[trigger] connections[i], id) implies without(
        connections,
        id,
    ).contains(connections[i]) by {
        connections.lemma_filter_contains(keep, i);
    }
    assert forall|c: Connection| #[trigger]
        without(connections, id).contains(c) implies connections.contains(c) by {
        connections.lemma_filter_contains_rev(keep, c);
    }
}

/// Where every connection starts and ends at a listed id, and no id is
/// listed twice, the connections that avoid the id at position `k` start and
/// end at ids that are still listed once that one is taken out.
proof fn lemma_ends_stay(connections: Seq<Connection>, ids: Seq<Seq<char>>, k: int)
    requires
        0 <= k < ids.len(),
        ids.no_duplicates(),
        forall|i: int|
            0 <= i < connections.len() ==> ids.contains((#[trigger] connections[i]).from_node@)
                && ids.contains(connections[i].to_node@),
    ensures
        forall|j: int|
            0 <= j < without(connections, ids[k]).len() ==> ids.remove(k).contains(
                (#[trigger] without(connections, ids[k])[j]).from_node@,
            ) && ids.remove(k).contains(without(connections, ids[k])[j].to_node@),
{
    let kept = without(connections, ids[k]);
    lemma_without(connections, ids[k]);
    lemma_remove_keeps_unique(ids, k);
    assert forall|j: int| 0 <= j < kept.len() implies ids.remove(k).contains(
        (#[trigger] kept[j]).from_node@,
    ) && ids.remove(k).contains(kept[j].to_node@) by {
        let c = kept[j];
        assert(kept.contains(c));
        let w = choose|w: int| 0 <= w < connections.len() && connections[w] == c;
        assert(ids.contains(connections[w].from_node@));
        assert(avoids(c, ids[k]));
    }
}

/// Taking one entry out of a list without repeats leaves a list without
/// repeats, and the entry is no longer in it.
proof fn lemma_remove_keeps_unique(ids: Seq<Seq<char>>, k: int)
    requires
        0 <= k < ids.len(),
        ids.no_duplicates(),
    ensures
        ids.remove(k).no_duplicates(),
        !ids.remove(k).contains(ids[k]),
        forall|x: Seq<char>| ids.contains(x) && x != ids[k] ==> ids.remove(k).contains(x),
{
    let rest = ids.remove(k);
    assert forall|x: Seq<char>| ids.contains(x) && x != ids[k] implies rest.contains(x) by {
        let j = choose|j: int| 0 <= j < ids.len() && ids[j] == x;
        if j < k {
            assert(rest[j] == x);
        } else {
            assert(rest[j - 1] == x);
        }
    }
}

impl NodeGraph {
    /// The ids of the nodes, in order.
    pub open spec fn ids(&self) -> Seq<Seq<char>> {
        node_ids(self.nodes@)
    }

    /// Whether a node with this id is in the graph.
    pub open spec fn has_node(&self, id: Seq<char>) -> bool {
        self.ids().contains(id)
    }

    /// The node with this id, if there is one.
    pub open spec fn node_named(&self, id: Seq<char>) -> Option<Node> {
        match find_first(self.ids(), id) {
            Some(k) => Some(self.nodes[k]),
            None => None,
        }
    }

    /// No two nodes share an id.
    pub open spec fn unique_ids(&self) -> bool {
        self.ids().no_duplicates()
    }

    /// Every connection starts and ends at a node of the graph.
    pub open spec fn endpoints_exist(&self) -> bool {
        forall|i: int|
            0 <= i < self.connections.len() ==> self.has_node(
                (#[trigger] self.connections[i]).from_node@,
            ) && self.has_node(self.connections[i].to_node@)
    }

    /// Whether a connection with this canonical key is in the graph.
    pub open spec fn has_key(&self, key: Seq<char>) -> bool {
        connection_keys(self.connections@).contains(key)
    }

    /// The position of the node with the given id, if there is one.
    fn node_position(&self, node_id: &str) -> (r: Option<usize>)
        ensures
            match r {
                Some(k) => k < self.nodes.len() && find_first(self.ids(), node_id@) == Some(
                    k as int,
                ),
                None => find_first(self.ids(), node_id@) is None,
            },
            r is Some == self.has_node(node_id@),
    {
        let mut i: usize = 0;
        while i < self.nodes.len()
            invariant
                i <= self.nodes.len(),
                forall|k: int| 0 <= k < i ==> self.ids()[k] != node_id@,
            decreases self.nodes.len() - i,
        {
            if same_text(self.nodes[i].id.as_str(), node_id) {
                proof {
                    lemma_find_first(self.ids(), node_id@, i as int);
                }
                return Some(i);
            }
            i += 1;
        }
        None
    }

    /// Whether a node with this id is in the graph.
    pub fn contains_node(&self, node_id: &str) -> (r: bool)
        ensures
            r == self.has_node(node_id@),
    {
        self.node_position(node_id).is_some()
    }

    /// An empty graph for the given kind of media.
    pub fn new(media_type: MediaType) -> (g: NodeGraph)
        ensures
            g.nodes@.len() == 0,
            g.connections@.len() == 0,
            g.config.media_type == media_type,
            g.config.is_plain(),
            g.unique_ids(),
            g.endpoints_exist(),
    {
        let mut config = GraphConfig::default();
        config.media_type = media_type;
        NodeGraph { nodes: Vec::new(), connections: Vec::new(), config }
    }

    /// Adds a node. An id that is already taken is refused and the graph
    /// stays as it is.
    pub fn add_node(&mut self, node: Node) -> (r: Result<(), DomainError>)
        ensures
            match r {
                Ok(()) => {
                    &&& !old(self).has_node(node.id@)
                    &&& final(self).nodes@ == old(self).nodes@.push(node)
                    &&& final(self).connections == old(self).connections
                    &&& final(self).config == old(self).config
                },
                Err(e) => {
                    &&& old(self).has_node(node.id@)
                    &&& e@ == DomainFault::Validation(
                        ValidationFault::DuplicateNodeId { node_id: node.id@ },
                    )
                    &&& *final(self) == *old(self)
                },
            },
            old(self).unique_ids() ==> final(self).unique_ids(),
            old(self).endpoints_exist() ==> final(self).endpoints_exist(),
    {
        if self.contains_node(node.id.as_str()) {
            return Err(DomainError::Validation(ValidationError::DuplicateNodeId { node_id: node.id }));
        }
        proof {
            let before = self.ids();
            let after = node_ids(self.nodes@.push(node));
            assert(after == before.push(node.id@));
            if self.endpoints_exist() {
                assert forall|i: int| 0 <= i < self.connections.len() implies after.contains(
                    (#[trigger] self.connections[i]).from_node@,
                ) && after.contains(self.connections[i].to_node@) by {
                    let a = choose|a: int|
                        0 <= a < before.len() && before[a] == self.connections[i].from_node@;
                    assert(after[a] == self.connections[i].from_node@);
                    let b = choose|b: int|
                        0 <= b < before.len() && before[b] == self.connections[i].to_node@;
                    assert(after[b] == self.connections[i].to_node@);
                }
            }
        }
        self.nodes.push(node);
        Ok(())
    }

    /// Removes the node with the given id and hands it back, together with
    /// every connection that starts or ends at it. An id that no node has is
    /// refused, and the graph stays as it is.
    pub fn remove_node(&mut self, node_id: &str) -> (r: Result<Node, DomainError>)
        ensures
            match r {
                Ok(n) => {
                    &&& find_first(old(self).ids(), node_id@) matches Some(k)
                    &&& n == old(self).nodes[k]
                    &&& final(self).nodes@ == old(self).nodes@.remove(k)
                    &&& final(self).connections@ == without(old(self).connections@, node_id@)
                    &&& forall|i: int|
                        0 <= i < final(self).connections.len() ==> avoids(
                            #[trigger] final(self).connections[i],
                            node_id@,
                        )
                    &&& forall|i: int|
                        0 <= i < old(self).connections.len() && avoids(
                            #[trigger] old(self).connections[i],
                            node_id@,
                        ) ==> final(self).connections@.contains(old(self).connections[i])
                    &&& final(self).config == old(self).config
                },
                Err(e) => {
                    &&& !old(self).has_node(node_id@)
                    &&& e@ == DomainFault::Validation(
                        ValidationFault::NodeNotFound { node_id: node_id@ },
                    )
                    &&& *final(self) == *old(self)
                },
            },
            old(self).unique_ids() ==> final(self).unique_ids() && !final(self).has_node(node_id@),
            old(self).unique_ids() && old(self).endpoints_exist() ==> final(self).endpoints_exist(),
    {
        let k = match self.node_position(node_id) {
            Some(k) => k,
            None => {
                return Err(
                    DomainError::Validation(
                        ValidationError::NodeNotFound { node_id: node_id.to_owned() },
                    ),
                );
            },
        };
        let ghost before = self.connections@;
        let ghost mut seen: int = 0;
        let mut i: usize = 0;
        while i < self.connections.len()
            invariant
                0 <= seen <= before.len(),
                i as int == without(before.take(seen), node_id@).len(),
                self.connections@ == without(before.take(seen), node_id@) + before.skip(seen),
                self.nodes == old(self).nodes,
                self.config == old(self).config,
            decreases before.len() - seen,
        {
            proof {
                lemma_filter_step(before, |c: Connection| avoids(c, node_id@), seen);
                assert(self.connections[i as int] == before[seen]);
            }
            let touches = same_text(self.connections[i].from_node.as_str(), node_id) || same_text(
                self.connections[i].to_node.as_str(),
                node_id,
            );
            if touches {
                self.connections.remove(i);
            } else {
                i += 1;
            }
            proof {
                seen = seen + 1;
                assert(self.connections@ == without(before.take(seen), node_id@) + before.skip(
                    seen,
                ));
            }
        }
        proof {
            let ids = self.ids();
            assert(before.take(seen) == before);
            assert(self.connections@ == without(before, node_id@));
            lemma_without(before, node_id@);
            lemma_find_first_cases(ids, node_id@);
            assert(node_ids(self.nodes@.remove(k as int)) == ids.remove(k as int));
            if old(self).unique_ids() {
                lemma_remove_keeps_unique(ids, k as int);
                if old(self).endpoints_exist() {
                    assert forall|w: int| 0 <= w < before.len() implies ids.contains(
                        (#[trigger] before[w]).from_node@,
                    ) && ids.contains(before[w].to_node@) by {
                        assert(old(self).has_node(old(self).connections[w].from_node@));
                    }
                    lemma_ends_stay(before, ids, k as int);
                }
            }
        }
        let node = self.nodes.remove(k);
        Ok(node)
    }

    /// Adds a connection. Both end nodes must exist, and no connection with
    /// the same canonical key may be there yet; otherwise the graph stays as
    /// it is. Ports and their types are not looked at here.
    pub fn add_connection(&mut self, connection: Connection) -> (r: Result<(), DomainError>)
        ensures
            match r {
                Ok(()) => {
                    &&& old(self).has_node(connection.from_node@)
                    &&& old(self).has_node(connection.to_node@)
                    &&& !old(self).has_key(connection.key_text())
                    &&& final(self).connections@ == old(self).connections@.push(connection)
                    &&& final(self).nodes == old(self).nodes
                    &&& final(self).config == old(self).config
                },
                Err(e) => {
                    &&& *final(self) == *old(self)
                    &&& if !old(self).has_node(connection.from_node@) {
                        e@ == DomainFault::Validation(
                            ValidationFault::NodeNotFound { node_id: connection.from_node@ },
                        )
                    } else if !old(self).has_node(connection.to_node@) {
                        e@ == DomainFault::Validation(
                            ValidationFault::NodeNotFound { node_id: connection.to_node@ },
                        )
                    } else {
                        &&& old(self).has_key(connection.key_text())
                        &&& e@ == DomainFault::Other(
                            "Duplicate connection: "@ + connection.key_text(),
                        )
                    }
                },
            },
            old(self).unique_ids() ==> final(self).unique_ids(),
            old(self).endpoints_exist() ==> final(self).endpoints_exist(),
    {
        if !self.contains_node(connection.from_node.as_str()) {
            return Err(
                DomainError::Validation(
                    ValidationError::NodeNotFound { node_id: connection.from_node },
                ),
            );
        }
        if !self.contains_node(connection.to_node.as_str()) {
            return Err(
                DomainError::Validation(ValidationError::NodeNotFound { node_id: connection.to_node }),
            );
        }
        let key = connection.key();
        let mut i: usize = 0;
        while i < self.connections.len()
            invariant
                i <= self.connections.len(),
                key@ == connection.key_text(),
                self.has_node(connection.from_node@),
                self.has_node(connection.to_node@),
                forall|k: int| 0 <= k < i ==> connection_keys(self.connections@)[k] != key@,
                *self == *old(self),
            decreases self.connections.len() - i,
        {
            let other = self.connections[i].key();
            if same_text(other.as_str(), key.as_str()) {
                assert(connection_keys(self.connections@)[i as int] == key@);
                let mut message = "Duplicate connection: ".to_owned();
                message.append(key.as_str());
                return Err(DomainError::Other(message));
            }
            i += 1;
        }
        proof {
            if self.endpoints_exist() {
                assert forall|j: int|
                    0 <= j < self.connections@.push(connection).len() implies self.has_node(
                    (#[trigger] self.connections@.push(connection)[j]).from_node@,
                ) && self.has_node(self.connections@.push(connection)[j].to_node@) by {
                    if j < self.connections.len() {
                        assert(self.connections@.push(connection)[j] == self.connections[j]);
                    }
                }
            }
        }
        self.connections.push(connection);
        Ok(())
    }

    /// The node with the given id, if there is one.
    pub fn get_node(&self, node_id: &str) -> (r: Option<&Node>)
        ensures
            match r {
                Some(n) => self.node_named(node_id@) == Some(*n),
                None => self.node_named(node_id@) is None,
            },
            r is Some == self.has_node(node_id@),
    {
        match self.node_position(node_id) {
            Some(k) => Some(&self.nodes[k]),
            None => None,
        }
    }
}

} // verus!
