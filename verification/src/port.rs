//! Ports: the named, typed points of a node where connections attach.

use crate::error::DataType;
use vstd::prelude::*;

verus! {

/// A port of a node.
#[derive(Debug, Clone, PartialEq, Eq)]
pub struct Port {
    /// The port's id, unique among the inputs (or the outputs) of its node.
    pub id: String,
    /// The type of the data that passes through.
    pub data_type: DataType,
    /// Whether the port may stay unconnected.
    pub optional: bool,
    /// The name shown to users.
    pub display_name: Option<String>,
}

/// The ids of a list of ports, in order.
pub open spec fn port_ids(ports: Seq<Port>) -> Seq<Seq<char>> {
    Seq::new(ports.len(), |i: int| ports[i].id@)
}

impl Port {
    /// A required port with the given id and type, without a display name.
    pub fn new(id: &str, data_type: DataType) -> (p: Port)
        ensures
            p.id@ == id@,
            p.data_type == data_type,
            !p.optional,
            p.display_name is None,
    {
        Port { id: id.to_owned(), data_type, optional: false, display_name: None }
    }

    /// The same port, marked optional.
    pub fn optional(self) -> (p: Port)
        ensures
            p == (Port { optional: true, ..self }),
    {
        let mut p = self;
        p.optional = true;
        p
    }

    /// The same port with a display name.
    pub fn with_display_name(self, name: &str) -> (p: Port)
        ensures
            p.id == self.id,
            p.data_type == self.data_type,
            p.optional == self.optional,
            p.display_name matches Some(n) && n@ == name@,
    {
        let mut p = self;
        p.display_name = Some(name.to_owned());
        p
    }
}

/// A port as a node type declares it, with fixed texts.
#[derive(Debug, Clone)]
pub struct PortDef {
    /// The port's id.
    pub id: &'static str,
    /// The type of the data that passes through.
    pub data_type: DataType,
    /// Whether the port may stay unconnected.
    pub optional: bool,
    /// The name shown to users.
    pub display_name: &'static str,
    /// What the port is for.
    pub description: &'static str,
}

impl PortDef {
    /// A port declaration with every field given.
    pub fn new(
        id: &'static str,
        data_type: DataType,
        optional: bool,
        display_name: &'static str,
        description: &'static str,
    ) -> (d: PortDef)
        ensures
            d == (PortDef { id, data_type, optional, display_name, description }),
    {
        PortDef { id, data_type, optional, display_name, description }
    }

    /// A port declaration that must be connected.
    pub fn required(
        id: &'static str,
        data_type: DataType,
        display_name: &'static str,
        description: &'static str,
    ) -> (d: PortDef)
        ensures
            d == (PortDef { id, data_type, optional: false, display_name, description }),
    {
        PortDef::new(id, data_type, false, display_name, description)
    }

    /// A port declaration that may stay unconnected.
    pub fn optional_port(
        id: &'static str,
        data_type: DataType,
        display_name: &'static str,
        description: &'static str,
    ) -> (d: PortDef)
        ensures
            d == (PortDef { id, data_type, optional: true, display_name, description }),
    {
        PortDef::new(id, data_type, true, display_name, description)
    }

    /// The port of a node instance that this declaration stands for.
    pub fn to_port(&self) -> (p: Port)
        ensures
            p.id@ == self.id@,
            p.data_type == self.data_type,
            p.optional == self.optional,
            p.display_name matches Some(n) && n@ == self.display_name@,
    {
        Port {
            id: self.id.to_owned(),
            data_type: self.data_type,
            optional: self.optional,
            display_name: Some(self.display_name.to_owned()),
        }
    }
}

} // verus!
