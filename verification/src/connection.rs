//! A connection: one directed edge from an output port of one node to an
//! input port of another.

use vstd::prelude::*;

verus! {

/// A directed edge between two ports, each named by its node and its own id.
#[derive(Debug, Clone, PartialEq, Eq, Hash)]
pub struct Connection {
    /// The node that the data leaves.
    pub from_node: String,
    /// The output port that it leaves through.
    pub from_port: String,
    /// The node that the data enters.
    pub to_node: String,
    /// The input port that it enters through.
    pub to_port: String,
}

/// The canonical key of a connection between the given ports.
pub open spec fn connection_key(
    from_node: Seq<char>,
    from_port: Seq<char>,
    to_node: Seq<char>,
    to_port: Seq<char>,
) -> Seq<char> {
    from_node + ":"@ + from_port + "->"@ + to_node + ":"@ + to_port
}

impl Connection {
    /// The canonical key of this connection: two connections are the same
    /// edge exactly when their keys are equal.
    pub open spec fn key_text(&self) -> Seq<char> {
        connection_key(self.from_node@, self.from_port@, self.to_node@, self.to_port@)
    }

    /// A connection from `from_node.from_port` to `to_node.to_port`.
    pub fn new(from_node: &str, from_port: &str, to_node: &str, to_port: &str) -> (c: Connection)
        ensures
            c.from_node@ == from_node@,
            c.from_port@ == from_port@,
            c.to_node@ == to_node@,
            c.to_port@ == to_port@,
    {
        Connection {
            from_node: from_node.to_owned(),
            from_port: from_port.to_owned(),
            to_node: to_node.to_owned(),
            to_port: to_port.to_owned(),
        }
    }

    /// The canonical key, `from_node:from_port->to_node:to_port`.
    pub fn key(&self) -> (k: String)
        ensures
            k@ == self.key_text(),
    {
        let mut k = self.from_node.clone();
        k.append(":");
        k.append(self.from_port.as_str());
        k.append("->");
        k.append(self.to_node.as_str());
        k.append(":");
        k.append(self.to_port.as_str());
        k
    }

    /// The same edge walked backwards: source and target change places.
    pub fn reversed(&self) -> (c: Connection)
        ensures
            c.from_node@ == self.to_node@,
            c.from_port@ == self.to_port@,
            c.to_node@ == self.from_node@,
            c.to_port@ == self.from_port@,
    {
        Connection::new(
            self.to_node.as_str(),
            self.to_port.as_str(),
            self.from_node.as_str(),
            self.from_port.as_str(),
        )
    }
}

} // verus!
