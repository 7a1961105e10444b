//! Nodes: the processing units of a graph, with their ports and their
//! free-form configuration.

use crate::json::{json_is_null, json_is_object, json_member, json_model, json_object, json_put, JsonModel};
use crate::port::{port_ids, Port};
use crate::text::{find_first, lemma_find_first, same_text};
use vstd::prelude::*;

verus! {

/// The configuration of a node: any JSON value, shaped by the node's type.
pub type NodeConfig = serde_json::Value;

/// Where a node is drawn. Validation and execution ignore it.
#[derive(Debug, Clone, PartialEq, Eq)]
pub struct Position {
    /// Horizontal coordinate.
    pub x: i64,
    /// Vertical coordinate.
    pub y: i64,
}

impl Position {
    /// The position `(x, y)`.
    pub fn new(x: i64, y: i64) -> (p: Position)
        ensures
            p.x == x,
            p.y == y,
    {
        Position { x, y }
    }
}

/// A node of a graph.
#[derive(Debug, Clone)]
pub struct Node {
    /// The node's id, unique in its graph.
    pub id: String,
    /// The kind of node; it names an entry of the node-type catalog.
    pub node_type: String,
    /// The node's configuration.
    pub config: NodeConfig,
    /// The input ports, in order.
    pub inputs: Vec<Port>,
    /// The output ports, in order.
    pub outputs: Vec<Port>,
    /// Where the node is drawn.
    pub position: Option<Position>,
    /// Whether the node is switched off.
    pub disabled: bool,
}

/// The first port of `ports` with the given id, if there is one.
pub open spec fn port_named(ports: Seq<Port>, id: Seq<char>) -> Option<Port> {
    match find_first(port_ids(ports), id) {
        Some(k) => Some(ports[k]),
        None => None,
    }
}

/// Looks a port up by its id; the first match counts.
fn find_port<'a>(ports: &'a Vec<Port>, port_id: &str) -> (r: Option<&'a Port>)
    ensures
        match r {
            Some(p) => port_named(ports@, port_id@) == Some(*p),
            None => port_named(ports@, port_id@) is None,
        },
{
    let mut i: usize = 0;
    while i < ports.len()
        invariant
            i <= ports.len(),
            forall|k: int| 0 <= k < i ==> port_ids(ports@)[k] != port_id@,
        decreases ports.len() - i,
    {
        if same_text(ports[i].id.as_str(), port_id) {
            proof {
                lemma_find_first(port_ids(ports@), port_id@, i as int);
            }
            return Some(&ports[i]);
        }
        i += 1;
    }
    None
}

impl Node {
    /// What the configuration holds.
    pub open spec fn config_model(&self) -> JsonModel {
        json_model(self.config)
    }

    /// A node without ports, drawn nowhere, switched on.
    pub fn new(id: &str, node_type: &str, config: NodeConfig) -> (n: Node)
        ensures
            n.id@ == id@,
            n.node_type@ == node_type@,
            n.config == config,
            n.inputs@.len() == 0,
            n.outputs@.len() == 0,
            n.position is None,
            !n.disabled,
    {
        Node {
            id: id.to_owned(),
            node_type: node_type.to_owned(),
            config,
            inputs: Vec::new(),
            outputs: Vec::new(),
            position: None,
            disabled: false,
        }
    }

    /// The same node with the given input ports.
    pub fn with_inputs(self, inputs: Vec<Port>) -> (n: Node)
        ensures
            n == (Node { inputs, ..self }),
    {
        let mut n = self;
        n.inputs = inputs;
        n
    }

    /// The same node with the given output ports.
    pub fn with_outputs(self, outputs: Vec<Port>) -> (n: Node)
        ensures
            n == (Node { outputs, ..self }),
    {
        let mut n = self;
        n.outputs = outputs;
        n
    }

    /// The same node, drawn at `position`.
    pub fn with_position(self, position: Position) -> (n: Node)
        ensures
            n == (Node { position: Some(position), ..self }),
    {
        let mut n = self;
        n.position = Some(position);
        n
    }

    /// The same node, switched off or on.
    pub fn with_disabled(self, disabled: bool) -> (n: Node)
        ensures
            n == (Node { disabled, ..self }),
    {
        let mut n = self;
        n.disabled = disabled;
        n
    }

    /// The input port with the given id; the first match counts.
    pub fn get_input(&self, port_id: &str) -> (r: Option<&Port>)
        ensures
            match r {
                Some(p) => port_named(self.inputs@, port_id@) == Some(*p),
                None => port_named(self.inputs@, port_id@) is None,
            },
    {
        find_port(&self.inputs, port_id)
    }

    /// The output port with the given id; the first match counts.
    pub fn get_output(&self, port_id: &str) -> (r: Option<&Port>)
        ensures
            match r {
                Some(p) => port_named(self.outputs@, port_id@) == Some(*p),
                None => port_named(self.outputs@, port_id@) is None,
            },
    {
        find_port(&self.outputs, port_id)
    }

    /// The configuration entry under `key`: present exactly when the
    /// configuration is an object with a member of that name.
    pub fn get_config(&self, key: &str) -> (r: Option<&serde_json::Value>)
        ensures
            match r {
                Some(v) => self.config_model().member(key@) == Some(json_model(*v)),
                None => self.config_model().member(key@) is None,
            },
    {
        json_member(&self.config, key)
    }

    /// Stores `value` under `key` in the configuration. The configuration
    /// must be able to hold members: an object, or `null`, which becomes one.
    pub fn set_config(&mut self, key: &str, value: serde_json::Value)
        requires
            old(self).config_model().accepts_members(),
        ensures
            final(self).config_model() == JsonModel::Object(
                old(self).config_model().members().insert(key@, json_model(value)),
            ),
            final(self).id == old(self).id,
            final(self).node_type == old(self).node_type,
            final(self).inputs == old(self).inputs,
            final(self).outputs == old(self).outputs,
            final(self).position == old(self).position,
            final(self).disabled == old(self).disabled,
    {
        json_put(&mut self.config, key, value);
    }

    /// Stores `value` under `key` where the configuration can hold members,
    /// and says whether it did. Otherwise the node stays as it is.
    pub fn try_set_config(&mut self, key: &str, value: serde_json::Value) -> (stored: bool)
        ensures
            stored == old(self).config_model().accepts_members(),
            stored ==> final(self).config_model() == JsonModel::Object(
                old(self).config_model().members().insert(key@, json_model(value)),
            ),
            !stored ==> final(self).config == old(self).config,
            final(self).id == old(self).id,
            final(self).node_type == old(self).node_type,
            final(self).inputs == old(self).inputs,
            final(self).outputs == old(self).outputs,
            final(self).position == old(self).position,
            final(self).disabled == old(self).disabled,
    {
        if json_is_object(&self.config) || json_is_null(&self.config) {
            self.set_config(key, value);
            true
        } else {
            false
        }
    }
}

/// Builds a node step by step.
pub struct NodeBuilder {
    node: Node,
}

impl NodeBuilder {
    /// The node as built so far.
    pub closed spec fn draft(&self) -> Node {
        self.node
    }

    /// Starts a node with an empty object as its configuration.
    pub fn new(id: &str, node_type: &str) -> (b: NodeBuilder)
        ensures
            b.draft().id@ == id@,
            b.draft().node_type@ == node_type@,
            b.draft().config_model() == JsonModel::Object(Map::empty()),
            b.draft().inputs@.len() == 0,
            b.draft().outputs@.len() == 0,
            b.draft().position is None,
            !b.draft().disabled,
    {
        NodeBuilder { node: Node::new(id, node_type, json_object()) }
    }

    /// Replaces the whole configuration.
    pub fn config(self, config: NodeConfig) -> (b: NodeBuilder)
        ensures
            b.draft() == (Node { config, ..self.draft() }),
    {
        let mut b = self;
        b.node.config = config;
        b
    }

    /// Stores one configuration entry. The configuration must be able to
    /// hold members, as it is unless `config` replaced it by something else.
    pub fn set(self, key: &str, value: serde_json::Value) -> (b: NodeBuilder)
        requires
            self.draft().config_model().accepts_members(),
        ensures
            b.draft().config_model() == JsonModel::Object(
                self.draft().config_model().members().insert(key@, json_model(value)),
            ),
            b.draft().id == self.draft().id,
            b.draft().node_type == self.draft().node_type,
            b.draft().inputs == self.draft().inputs,
            b.draft().outputs == self.draft().outputs,
            b.draft().position == self.draft().position,
            b.draft().disabled == self.draft().disabled,
    {
        let mut b = self;
        b.node.set_config(key, value);
        b
    }

    /// Adds an input port after those already there.
    pub fn input(self, port: Port) -> (b: NodeBuilder)
        ensures
            b.draft() == (Node { inputs: b.draft().inputs, ..self.draft() }),
            b.draft().inputs@ == self.draft().inputs@.push(port),
    {
        let mut b = self;
        b.node.inputs.push(port);
        b
    }

    /// Adds an output port after those already there.
    pub fn output(self, port: Port) -> (b: NodeBuilder)
        ensures
            b.draft() == (Node { outputs: b.draft().outputs, ..self.draft() }),
            b.draft().outputs@ == self.draft().outputs@.push(port),
    {
        let mut b = self;
        b.node.outputs.push(port);
        b
    }

    /// Sets where the node is drawn.
    pub fn position(self, x: i64, y: i64) -> (b: NodeBuilder)
        ensures
            b.draft() == (Node { position: Some(Position { x, y }), ..self.draft() }),
    {
        let mut b = self;
        b.node.position = Some(Position::new(x, y));
        b
    }

    /// The finished node.
    pub fn build(self) -> (n: Node)
        ensures
            n == self.draft(),
    {
        self.node
    }
}

} // verus!
