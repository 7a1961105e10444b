//! Data types carried by ports, the rule that decides which of them may be
//! wired together, and the errors that the domain reports.

use crate::text::{join, joined, names};
use vstd::prelude::*;

verus! {

/// The error that `serde_json` reports; its inside is not read here.
#[verifier::external_type_specification]
#[verifier::external_body]
pub struct ExJsonError(serde_json::Error);

/// The error that `std::io` reports; its inside is not read here.
#[verifier::external_type_specification]
#[verifier::external_body]
pub struct ExIoError(std::io::Error);

/// The type of the data that flows through a port.
#[derive(Debug, Clone, Copy, PartialEq, Eq, Hash, Structural)]
pub enum DataType {
    /// Text.
    String,
    /// A number.
    Number,
    /// True or false.
    Boolean,
    /// A list of values.
    Array,
    /// A keyed record.
    Object,
    /// Raw bytes.
    Binary,
    /// Anything: fits every port, on either side.
    Any,
}

/// The compatibility relation: a wildcard on either side, equal types, or an
/// array handed to an object-shaped input. It is not symmetric.
pub open spec fn type_compatible(source: DataType, target: DataType) -> bool {
    ||| source is Any
    ||| target is Any
    ||| source == target
    ||| (source is Array && target is Object)
}

/// Whether an output of type `source` may feed an input of type `target`.
pub fn is_type_compatible(source: DataType, target: DataType) -> (r: bool)
    ensures
        r == type_compatible(source, target),
{
    if source == DataType::Any || target == DataType::Any {
        return true;
    }
    if source == target {
        return true;
    }
    if source == DataType::Array && target == DataType::Object {
        return true;
    }
    false
}

impl DataType {
    /// The lowercase name shown to users.
    pub open spec fn name(self) -> Seq<char> {
        match self {
            DataType::String => "string"@,
            DataType::Number => "number"@,
            DataType::Boolean => "boolean"@,
            DataType::Array => "array"@,
            DataType::Object => "object"@,
            DataType::Binary => "binary"@,
            DataType::Any => "any"@,
        }
    }

    /// The variant's own name, as diagnostics print it.
    pub open spec fn variant_name(self) -> Seq<char> {
        match self {
            DataType::String => "String"@,
            DataType::Number => "Number"@,
            DataType::Boolean => "Boolean"@,
            DataType::Array => "Array"@,
            DataType::Object => "Object"@,
            DataType::Binary => "Binary"@,
            DataType::Any => "Any"@,
        }
    }

    /// The lowercase name shown to users.
    pub fn to_string(&self) -> (r: String)
        ensures
            r@ == self.name(),
    {
        match self {
            DataType::String => "string".to_owned(),
            DataType::Number => "number".to_owned(),
            DataType::Boolean => "boolean".to_owned(),
            DataType::Array => "array".to_owned(),
            DataType::Object => "object".to_owned(),
            DataType::Binary => "binary".to_owned(),
            DataType::Any => "any".to_owned(),
        }
    }

    /// The variant's own name, as diagnostics print it.
    pub fn debug_name(&self) -> (r: &'static str)
        ensures
            r@ == self.variant_name(),
    {
        match self {
            DataType::String => "String",
            DataType::Number => "Number",
            DataType::Boolean => "Boolean",
            DataType::Array => "Array",
            DataType::Object => "Object",
            DataType::Binary => "Binary",
            DataType::Any => "Any",
        }
    }
}

/// What went wrong in a graph, with the ids and types that locate it.
#[derive(Debug, Clone)]
pub enum ValidationError {
    /// The graph is not acyclic; `cycle` is a closed chain of node ids.
    CycleDetected { cycle: Vec<String> },
    /// A required input port has no incoming connection.
    PortNotConnected { node_id: String, port_id: String },
    /// A connection joins two ports whose types do not fit.
    TypeMismatch {
        from_node: String,
        from_port: String,
        to_node: String,
        to_port: String,
        expected: DataType,
        actual: DataType,
    },
    /// A node's configuration does not suit its type.
    InvalidNodeConfig { node_id: String, node_type: String, reason: String },
    /// No entry node of the expected type.
    MissingEntryNode { expected_type: String },
    /// No exit node of the expected type.
    MissingExitNode { expected_type: String },
    /// No node has this id.
    NodeNotFound { node_id: String },
    /// The node has no such port.
    PortNotFound { node_id: String, port_id: String },
    /// A node with this id is already there.
    DuplicateNodeId { node_id: String },
    /// Any other validation failure.
    Other { message: String },
}

/// A `ValidationError` with its strings read as character sequences.
pub ghost enum ValidationFault {
    CycleDetected { cycle: Seq<Seq<char>> },
    PortNotConnected { node_id: Seq<char>, port_id: Seq<char> },
    TypeMismatch {
        from_node: Seq<char>,
        from_port: Seq<char>,
        to_node: Seq<char>,
        to_port: Seq<char>,
        expected: DataType,
        actual: DataType,
    },
    InvalidNodeConfig { node_id: Seq<char>, node_type: Seq<char>, reason: Seq<char> },
    MissingEntryNode { expected_type: Seq<char> },
    MissingExitNode { expected_type: Seq<char> },
    NodeNotFound { node_id: Seq<char> },
    PortNotFound { node_id: Seq<char>, port_id: Seq<char> },
    DuplicateNodeId { node_id: Seq<char> },
    Other { message: Seq<char> },
}

impl ValidationFault {
    /// The text that describes the fault.
    pub open spec fn message(self) -> Seq<char> {
        match self {
            ValidationFault::CycleDetected { cycle } => "Cycle detected in node graph: "@ + joined(
                cycle,
                " -> "@,
            ),
            ValidationFault::PortNotConnected { node_id, port_id } => "Port '"@ + port_id
                + "' of node '"@ + node_id + "' is not connected"@,
            ValidationFault::TypeMismatch {
                from_node,
                from_port,
                to_node,
                to_port,
                expected,
                actual,
            } => "Type mismatch: "@ + from_node + "@"@ + from_port + " -> "@ + to_node + "@"@
                + to_port + " (expected "@ + expected.variant_name() + ", got "@
                + actual.variant_name() + ")"@,
            ValidationFault::InvalidNodeConfig { node_id, node_type, reason } =>
                "Invalid config for node '"@ + node_id + "' (type '"@ + node_type + "'): "@
                    + reason,
            ValidationFault::MissingEntryNode { expected_type } => "Missing entry node of type '"@
                + expected_type + "'"@,
            ValidationFault::MissingExitNode { expected_type } => "Missing exit node of type '"@
                + expected_type + "'"@,
            ValidationFault::NodeNotFound { node_id } => "Node '"@ + node_id + "' not found"@,
            ValidationFault::PortNotFound { node_id, port_id } => "Port '"@ + port_id
                + "' not found on node '"@ + node_id + "'"@,
            ValidationFault::DuplicateNodeId { node_id } => "Duplicate node ID: '"@ + node_id
                + "'"@,
            ValidationFault::Other { message } => "Validation error: "@ + message,
        }
    }
}

impl View for ValidationError {
    type V = ValidationFault;

    open spec fn view(&self) -> ValidationFault {
        match *self {
            ValidationError::CycleDetected { cycle } => ValidationFault::CycleDetected {
                cycle: names(cycle@),
            },
            ValidationError::PortNotConnected { node_id, port_id } =>
                ValidationFault::PortNotConnected { node_id: node_id@, port_id: port_id@ },
            ValidationError::TypeMismatch {
                from_node,
                from_port,
                to_node,
                to_port,
                expected,
                actual,
            } => ValidationFault::TypeMismatch {
                from_node: from_node@,
                from_port: from_port@,
                to_node: to_node@,
                to_port: to_port@,
                expected,
                actual,
            },
            ValidationError::InvalidNodeConfig { node_id, node_type, reason } =>
                ValidationFault::InvalidNodeConfig {
                    node_id: node_id@,
                    node_type: node_type@,
                    reason: reason@,
                },
            ValidationError::MissingEntryNode { expected_type } =>
                ValidationFault::MissingEntryNode { expected_type: expected_type@ },
            ValidationError::MissingExitNode { expected_type } => ValidationFault::MissingExitNode {
                expected_type: expected_type@,
            },
            ValidationError::NodeNotFound { node_id } => ValidationFault::NodeNotFound {
                node_id: node_id@,
            },
            ValidationError::PortNotFound { node_id, port_id } => ValidationFault::PortNotFound {
                node_id: node_id@,
                port_id: port_id@,
            },
            ValidationError::DuplicateNodeId { node_id } => ValidationFault::DuplicateNodeId {
                node_id: node_id@,
            },
            ValidationError::Other { message } => ValidationFault::Other { message: message@ },
        }
    }
}

impl ValidationError {
    /// The text that describes the error.
    pub fn to_string(&self) -> (r: String)
        ensures
            r@ == self@.message(),
    {
        match self {
            ValidationError::CycleDetected { cycle } => {
                let mut s = "Cycle detected in node graph: ".to_owned();
                let chain = join(cycle, " -> ");
                s.append(chain.as_str());
                s
            },
            ValidationError::PortNotConnected { node_id, port_id } => {
                let mut s = "Port '".to_owned();
                s.append(port_id.as_str());
                s.append("' of node '");
                s.append(node_id.as_str());
                s.append("' is not connected");
                s
            },
            ValidationError::TypeMismatch {
                from_node,
                from_port,
                to_node,
                to_port,
                expected,
                actual,
            } => {
                let mut s = "Type mismatch: ".to_owned();
                s.append(from_node.as_str());
                s.append("@");
                s.append(from_port.as_str());
                s.append(" -> ");
                s.append(to_node.as_str());
                s.append("@");
                s.append(to_port.as_str());
                s.append(" (expected ");
                s.append(expected.debug_name());
                s.append(", got ");
                s.append(actual.debug_name());
                s.append(")");
                s
            },
            ValidationError::InvalidNodeConfig { node_id, node_type, reason } => {
                let mut s = "Invalid config for node '".to_owned();
                s.append(node_id.as_str());
                s.append("' (type '");
                s.append(node_type.as_str());
                s.append("'): ");
                s.append(reason.as_str());
                s
            },
            ValidationError::MissingEntryNode { expected_type } => {
                let mut s = "Missing entry node of type '".to_owned();
                s.append(expected_type.as_str());
                s.append("'");
                s
            },
            ValidationError::MissingExitNode { expected_type } => {
                let mut s = "Missing exit node of type '".to_owned();
                s.append(expected_type.as_str());
                s.append("'");
                s
            },
            ValidationError::NodeNotFound { node_id } => {
                let mut s = "Node '".to_owned();
                s.append(node_id.as_str());
                s.append("' not found");
                s
            },
            ValidationError::PortNotFound { node_id, port_id } => {
                let mut s = "Port '".to_owned();
                s.append(port_id.as_str());
                s.append("' not found on node '");
                s.append(node_id.as_str());
                s.append("'");
                s
            },
            ValidationError::DuplicateNodeId { node_id } => {
                let mut s = "Duplicate node ID: '".to_owned();
                s.append(node_id.as_str());
                s.append("'");
                s
            },
            ValidationError::Other { message } => {
                let mut s = "Validation error: ".to_owned();
                s.append(message.as_str());
                s
            },
        }
    }
}

/// Every failure that a domain operation can report.
#[derive(Debug)]
pub enum DomainError {
    /// The graph or rule is not valid.
    Validation(ValidationError),
    /// A value could not be written or read as JSON.
    Serialization(serde_json::Error),
    /// Reading or writing failed.
    Io(std::io::Error),
    /// An adapter reported a failure.
    Infrastructure(String),
    /// Running a node failed.
    Execution(String),
    /// Something that was asked for is not there.
    NotFound(String),
    /// Anything else.
    Other(String),
}

/// A `DomainError` with its strings read as character sequences.
pub ghost enum DomainFault {
    Validation(ValidationFault),
    Serialization(serde_json::Error),
    Io(std::io::Error),
    Infrastructure(Seq<char>),
    Execution(Seq<char>),
    NotFound(Seq<char>),
    Other(Seq<char>),
}

impl DomainFault {
    /// Whether `text` is a description of the fault. For the variants that
    /// carry an outside error only the heading is fixed.
    pub open spec fn described_by(self, text: Seq<char>) -> bool {
        match self {
            DomainFault::Validation(v) => text == "Validation error: "@ + v.message(),
            DomainFault::Serialization(_) => exists|detail: Seq<char>|
                text == "Serialization error: "@ + detail,
            DomainFault::Io(_) => exists|detail: Seq<char>| text == "IO error: "@ + detail,
            DomainFault::Infrastructure(m) => text == "Infrastructure error: "@ + m,
            DomainFault::Execution(m) => text == "Execution error: "@ + m,
            DomainFault::NotFound(m) => text == "Not found: "@ + m,
            DomainFault::Other(m) => text == m,
        }
    }
}

impl View for DomainError {
    type V = DomainFault;

    open spec fn view(&self) -> DomainFault {
        match *self {
            DomainError::Validation(v) => DomainFault::Validation(v@),
            DomainError::Serialization(e) => DomainFault::Serialization(e),
            DomainError::Io(e) => DomainFault::Io(e),
            DomainError::Infrastructure(m) => DomainFault::Infrastructure(m@),
            DomainError::Execution(m) => DomainFault::Execution(m@),
            DomainError::NotFound(m) => DomainFault::NotFound(m@),
            DomainError::Other(m) => DomainFault::Other(m@),
        }
    }
}

/// A result of validation with its error read as a `DomainFault`.
pub open spec fn outcome(r: Result<(), DomainError>) -> Result<(), DomainFault> {
    match r {
        Ok(()) => Ok(()),
        Err(e) => Err(e@),
    }
}

/// A result that fails with a text, with that text read as characters.
pub open spec fn told(r: Result<(), String>) -> Result<(), Seq<char>> {
    match r {
        Ok(()) => Ok(()),
        Err(m) => Err(m@),
    }
}

/// What `serde_json::Error` prints for itself (its `Display`). Nothing is
/// claimed of the text: an error that wraps a failed read or write prints
/// what the operating system says of it.
#[verifier::external_body]
fn json_error_text(e: &serde_json::Error) -> String {
    e.to_string()
}

/// What `std::io::Error` prints for itself (its `Display`). Nothing is
/// claimed of the text.
#[verifier::external_body]
fn io_error_text(e: &std::io::Error) -> String {
    e.to_string()
}

impl DomainError {
    /// The text that describes the error.
    pub fn to_string(&self) -> (r: String)
        ensures
            self@.described_by(r@),
    {
        match self {
            DomainError::Validation(v) => {
                let mut s = "Validation error: ".to_owned();
                let inner = v.to_string();
                s.append(inner.as_str());
                s
            },
            DomainError::Serialization(e) => {
                let mut s = "Serialization error: ".to_owned();
                let inner = json_error_text(e);
                s.append(inner.as_str());
                s
            },
            DomainError::Io(e) => {
                let mut s = "IO error: ".to_owned();
                let inner = io_error_text(e);
                s.append(inner.as_str());
                s
            },
            DomainError::Infrastructure(m) => {
                let mut s = "Infrastructure error: ".to_owned();
                s.append(m.as_str());
                s
            },
            DomainError::Execution(m) => {
                let mut s = "Execution error: ".to_owned();
                s.append(m.as_str());
                s
            },
            DomainError::NotFound(m) => {
                let mut s = "Not found: ".to_owned();
                s.append(m.as_str());
                s
            },
            DomainError::Other(m) => m.clone(),
        }
    }
}

impl From<serde_json::Error> for DomainError {
    fn from(e: serde_json::Error) -> (r: DomainError) {
        DomainError::Serialization(e)
    }
}

impl vstd::std_specs::convert::FromSpecImpl<serde_json::Error> for DomainError {
    open spec fn obeys_from_spec() -> bool {
        true
    }

    open spec fn from_spec(e: serde_json::Error) -> DomainError {
        DomainError::Serialization(e)
    }
}

impl From<std::io::Error> for DomainError {
    fn from(e: std::io::Error) -> (r: DomainError) {
        DomainError::Io(e)
    }
}

impl vstd::std_specs::convert::FromSpecImpl<std::io::Error> for DomainError {
    open spec fn obeys_from_spec() -> bool {
        true
    }

    open spec fn from_spec(e: std::io::Error) -> DomainError {
        DomainError::Io(e)
    }
}

/// The compatibility table, entry by entry: every type fits itself, the
/// wildcard fits on either side, an array fits an object, and no other pair of
/// different types fits. In particular an object does not fit an array.
pub proof fn type_compatibility_table(source: DataType, target: DataType)
    ensures
        type_compatible(source, source),
        type_compatible(DataType::Any, target),
        type_compatible(source, DataType::Any),
        type_compatible(DataType::Array, DataType::Object),
        !type_compatible(DataType::Object, DataType::Array),
        source != target && !(source is Any) && !(target is Any) && !(source is Array
            && target is Object) ==> !type_compatible(source, target),
{
}

} // verus!
