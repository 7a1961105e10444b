//! Data-flow rule graphs: typed nodes, the connections between their ports,
//! and the checks that a graph must pass before anything runs it.

pub mod connection;
pub mod error;
pub mod flow;
pub mod graph;
pub mod json;
pub mod media_type;
pub mod node;
pub mod node_type;
pub mod order;
pub mod port;
pub mod ports;
pub mod text;
pub mod validate;
pub mod walk;

pub use connection::Connection;
pub use error::{is_type_compatible, DataType, DomainError, ValidationError};

pub use flow::{
    CrawlerRule, Flow, FlowConfig, FlowParameter, FlowResult, FlowTemplate, FlowType, Flows,
    GlobalConfig, ParamType,
};
pub use graph::{
    CacheConfig, CacheStorage, ConcurrencyConfig, CookieConfig, CookieStorage, GraphConfig,
    HttpCachePolicy, HttpConfig, Meta, NodeGraph, ProxyConfig, RetryPolicy,
};
pub use media_type::MediaType;
pub use node::{Node, NodeBuilder, NodeConfig, Position};
pub use node_type::{
    NodeCategory, NodeTypeMetadata, NodeTypeRegistry, NodeTypeRegistryBuilder, PortDef,
};
pub use port::{Port, PortDef as StaticPortDef};
