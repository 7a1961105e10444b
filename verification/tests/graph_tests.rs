use rule_graph::{
    Connection, DataType, DomainError, MediaType, Node, NodeGraph, Port, ValidationError,
};

fn empty_object() -> serde_json::Value {
    serde_json::Value::Object(serde_json::Map::new())
}

fn object_with(key: &str, value: serde_json::Value) -> serde_json::Value {
    let mut map = serde_json::Map::new();
    map.insert(key.to_string(), value);
    serde_json::Value::Object(map)
}

fn plain(id: &str) -> Node {
    Node::new(id, "test", empty_object())
}

fn position(order: &[String], id: &str) -> usize {
    order.iter().position(|x| x == id).unwrap()
}

#[test]
fn test_node_graph_creation() {
    let graph = NodeGraph::new(MediaType::Video);
    assert_eq!(graph.config.media_type, MediaType::Video);
    assert!(graph.nodes.is_empty());
    assert!(graph.connections.is_empty());
}

#[test]
fn test_add_node() {
    let mut graph = NodeGraph::new(MediaType::General);
    let node = Node::new(
        "node1",
        "constant",
        object_with("value", serde_json::Value::from(42)),
    );
    graph.add_node(node).unwrap();
    assert_eq!(graph.nodes.len(), 1);
}

#[test]
fn test_add_duplicate_node() {
    let mut graph = NodeGraph::new(MediaType::General);
    let node = Node::new("node1", "constant", empty_object());
    graph.add_node(node.clone()).unwrap();
    assert!(graph.add_node(node).is_err());
}

#[test]
fn test_add_connection() {
    let mut graph = NodeGraph::new(MediaType::General);

    let node1 = Node::new("node1", "test", empty_object())
        .with_outputs(vec![Port::new("out", DataType::String)]);
    let node2 = Node::new("node2", "test", empty_object())
        .with_inputs(vec![Port::new("in", DataType::String).optional()]);

    graph.add_node(node1).unwrap();
    graph.add_node(node2).unwrap();

    let conn = Connection::new("node1", "out", "node2", "in");
    graph.add_connection(conn).unwrap();

    assert_eq!(graph.connections.len(), 1);
}

#[test]
fn test_cycle_detection() {
    let mut graph = NodeGraph::new(MediaType::General);

    let node1 = Node::new("node1", "test", empty_object())
        .with_outputs(vec![Port::new("out", DataType::String)])
        .with_inputs(vec![Port::new("in", DataType::String)]);
    let node2 = Node::new("node2", "test", empty_object())
        .with_outputs(vec![Port::new("out", DataType::String)])
        .with_inputs(vec![Port::new("in", DataType::String)]);

    graph.add_node(node1).unwrap();
    graph.add_node(node2).unwrap();

    graph
        .add_connection(Connection::new("node1", "out", "node2", "in"))
        .unwrap();
    graph
        .add_connection(Connection::new("node2", "out", "node1", "in"))
        .unwrap();

    let result = graph.validate();
    assert!(result.is_err());
}

#[test]
fn test_topological_sort() {
    let mut graph = NodeGraph::new(MediaType::General);

    let node1 = Node::new("node1", "test", empty_object())
        .with_outputs(vec![Port::new("out", DataType::String)]);
    let node2 = Node::new("node2", "test", empty_object())
        .with_outputs(vec![Port::new("out", DataType::String)])
        .with_inputs(vec![Port::new("in", DataType::String)]);
    let node3 = Node::new("node3", "test", empty_object())
        .with_inputs(vec![Port::new("in", DataType::String)]);

    graph.add_node(node1).unwrap();
    graph.add_node(node2).unwrap();
    graph.add_node(node3).unwrap();

    graph
        .add_connection(Connection::new("node1", "out", "node2", "in"))
        .unwrap();
    graph
        .add_connection(Connection::new("node2", "out", "node3", "in"))
        .unwrap();

    let sorted = graph.topological_sort().unwrap();
    let idx1 = sorted.iter().position(|id| id == "node1").unwrap();
    let idx2 = sorted.iter().position(|id| id == "node2").unwrap();
    let idx3 = sorted.iter().position(|id| id == "node3").unwrap();

    assert!(idx1 < idx2);
    assert!(idx2 < idx3);
}

#[test]
fn duplicate_node_is_reported_and_changes_nothing() {
    let mut graph = NodeGraph::new(MediaType::General);
    graph.add_node(plain("a")).unwrap();
    graph.add_node(plain("b")).unwrap();
    graph
        .add_connection(Connection::new("a", "out", "b", "in"))
        .unwrap();
    let again = Node::new("a", "other", empty_object());
    match graph.add_node(again) {
        Err(DomainError::Validation(ValidationError::DuplicateNodeId { node_id })) => {
            assert_eq!(node_id, "a")
        }
        other => panic!("unexpected: {:?}", other),
    }
    assert_eq!(graph.nodes.len(), 2);
    assert_eq!(graph.connections.len(), 1);
    assert_eq!(graph.get_node("a").unwrap().node_type, "test");
}

#[test]
fn removing_a_node_drops_its_connections() {
    let mut graph = NodeGraph::new(MediaType::General);
    graph.add_node(plain("a")).unwrap();
    graph.add_node(plain("b")).unwrap();
    graph.add_node(plain("c")).unwrap();
    graph
        .add_connection(Connection::new("a", "out", "b", "in"))
        .unwrap();
    graph
        .add_connection(Connection::new("b", "out", "c", "in"))
        .unwrap();
    graph
        .add_connection(Connection::new("a", "out", "c", "in"))
        .unwrap();

    let removed = graph.remove_node("b").unwrap();
    assert_eq!(removed.id, "b");
    assert_eq!(graph.nodes.len(), 2);
    assert!(graph.get_node("b").is_none());
    assert!(!graph.contains_node("b"));
    assert_eq!(
        graph.connections,
        vec![Connection::new("a", "out", "c", "in")]
    );
}

#[test]
fn removing_an_absent_node_fails() {
    let mut graph = NodeGraph::new(MediaType::General);
    graph.add_node(plain("a")).unwrap();
    match graph.remove_node("zz") {
        Err(DomainError::Validation(ValidationError::NodeNotFound { node_id })) => {
            assert_eq!(node_id, "zz")
        }
        other => panic!("unexpected: {:?}", other),
    }
    assert_eq!(graph.nodes.len(), 1);
}

#[test]
fn removing_an_absent_node_leaves_connections_that_name_it() {
    let mut graph = NodeGraph::new(MediaType::General);
    graph.add_node(plain("a")).unwrap();
    graph.connections.push(Connection::new("a", "out", "ghost", "in"));
    graph.connections.push(Connection::new("a", "out", "a", "in"));
    assert!(graph.remove_node("ghost").is_err());
    assert_eq!(graph.nodes.len(), 1);
    assert_eq!(
        graph.connections,
        vec![
            Connection::new("a", "out", "ghost", "in"),
            Connection::new("a", "out", "a", "in")
        ]
    );
}

#[test]
fn connection_needs_both_nodes() {
    let mut graph = NodeGraph::new(MediaType::General);
    graph.add_node(plain("a")).unwrap();
    match graph.add_connection(Connection::new("x", "out", "a", "in")) {
        Err(DomainError::Validation(ValidationError::NodeNotFound { node_id })) => {
            assert_eq!(node_id, "x")
        }
        other => panic!("unexpected: {:?}", other),
    }
    match graph.add_connection(Connection::new("a", "out", "y", "in")) {
        Err(DomainError::Validation(ValidationError::NodeNotFound { node_id })) => {
            assert_eq!(node_id, "y")
        }
        other => panic!("unexpected: {:?}", other),
    }
    match graph.add_connection(Connection::new("x", "out", "y", "in")) {
        Err(DomainError::Validation(ValidationError::NodeNotFound { node_id })) => {
            assert_eq!(node_id, "x")
        }
        other => panic!("unexpected: {:?}", other),
    }
    assert!(graph.connections.is_empty());
}

#[test]
fn duplicate_connection_is_refused_by_its_key() {
    let mut graph = NodeGraph::new(MediaType::General);
    graph.add_node(plain("a")).unwrap();
    graph.add_node(plain("b")).unwrap();
    graph
        .add_connection(Connection::new("a", "out", "b", "in"))
        .unwrap();
    match graph.add_connection(Connection::new("a", "out", "b", "in")) {
        Err(DomainError::Other(message)) => {
            assert_eq!(message, "Duplicate connection: a:out->b:in")
        }
        other => panic!("unexpected: {:?}", other),
    }
    assert_eq!(graph.connections.len(), 1);
    graph
        .add_connection(Connection::new("a", "out", "b", "other"))
        .unwrap();
    assert_eq!(graph.connections.len(), 2);
}

#[test]
fn connections_may_name_ports_that_do_not_exist() {
    let mut graph = NodeGraph::new(MediaType::General);
    graph.add_node(plain("a")).unwrap();
    graph.add_node(plain("b")).unwrap();
    assert!(graph
        .add_connection(Connection::new("a", "nowhere", "b", "nothing"))
        .is_ok());
    match graph.validate() {
        Err(DomainError::Validation(ValidationError::PortNotFound { node_id, port_id })) => {
            assert_eq!(node_id, "b");
            assert_eq!(port_id, "nothing");
        }
        other => panic!("unexpected: {:?}", other),
    }
}

#[test]
fn dependencies_and_dependents_are_listed_once() {
    let mut graph = NodeGraph::new(MediaType::General);
    for id in ["a", "b", "c", "d"] {
        graph.add_node(plain(id)).unwrap();
    }
    graph
        .add_connection(Connection::new("a", "o1", "c", "i1"))
        .unwrap();
    graph
        .add_connection(Connection::new("a", "o2", "c", "i2"))
        .unwrap();
    graph
        .add_connection(Connection::new("b", "o", "c", "i3"))
        .unwrap();
    graph
        .add_connection(Connection::new("c", "o", "d", "i"))
        .unwrap();

    let mut deps = graph.get_dependencies("c");
    deps.sort();
    assert_eq!(deps, vec!["a".to_string(), "b".to_string()]);
    assert_eq!(graph.get_dependents("c"), vec!["d".to_string()]);
    assert_eq!(graph.get_dependents("a"), vec!["c".to_string()]);
    assert!(graph.get_dependencies("a").is_empty());
    assert!(graph.get_dependents("d").is_empty());
    assert!(graph.get_dependencies("unknown").is_empty());
}

#[test]
fn sort_lists_every_node_once_with_sources_first() {
    let mut graph = NodeGraph::new(MediaType::General);
    for id in ["d", "c", "b", "a", "lonely"] {
        graph.add_node(plain(id)).unwrap();
    }
    graph
        .add_connection(Connection::new("a", "o", "b", "i"))
        .unwrap();
    graph
        .add_connection(Connection::new("a", "o", "c", "i"))
        .unwrap();
    graph
        .add_connection(Connection::new("b", "o", "d", "i"))
        .unwrap();
    graph
        .add_connection(Connection::new("c", "o", "d", "i"))
        .unwrap();

    let order = graph.topological_sort().unwrap();
    assert_eq!(order.len(), 5);
    let mut seen = order.clone();
    seen.sort();
    seen.dedup();
    assert_eq!(seen.len(), 5);
    for c in &graph.connections {
        assert!(position(&order, &c.from_node) < position(&order, &c.to_node));
    }
}

#[test]
fn sort_of_a_cycle_names_a_node_of_it() {
    let mut graph = NodeGraph::new(MediaType::General);
    for id in ["a", "b", "c"] {
        graph.add_node(plain(id)).unwrap();
    }
    graph
        .add_connection(Connection::new("a", "o", "b", "i"))
        .unwrap();
    graph
        .add_connection(Connection::new("b", "o", "c", "i"))
        .unwrap();
    graph
        .add_connection(Connection::new("c", "o", "b", "i"))
        .unwrap();
    match graph.topological_sort() {
        Err(DomainError::Other(message)) => {
            assert!(
                message == "Cycle detected involving node: b"
                    || message == "Cycle detected involving node: c"
            );
        }
        other => panic!("unexpected: {:?}", other),
    }
}

#[test]
fn sort_follows_connections_to_ids_without_a_node() {
    let mut graph = NodeGraph::new(MediaType::General);
    graph.add_node(plain("a")).unwrap();
    graph.connections.push(Connection::new("a", "o", "ghost", "i"));
    graph.connections.push(Connection::new("far", "o", "away", "i"));
    assert_eq!(
        graph.topological_sort().unwrap(),
        vec!["a".to_string(), "ghost".to_string()]
    );
}

#[test]
fn sort_of_an_empty_graph_is_empty() {
    let graph = NodeGraph::new(MediaType::General);
    assert!(graph.topological_sort().unwrap().is_empty());
    assert!(graph.validate().is_ok());
}

#[test]
fn default_values_of_the_settings() {
    assert_eq!(rule_graph::graph::default_media_type(), MediaType::General);
    assert!(rule_graph::graph::default_true());
    assert_eq!(rule_graph::graph::default_max_retries(), 3);
    assert_eq!(rule_graph::graph::default_retry_delay(), 1000);
    assert_eq!(
        rule_graph::graph::default_retry_on_status(),
        vec![500, 502, 503, 504, 521, 522, 524]
    );
    assert!(rule_graph::flow::default_enabled());
    let config = rule_graph::GraphConfig::default();
    assert_eq!(config.media_type, MediaType::General);
    assert!(config.http.is_none() && config.cache.is_none() && config.concurrency.is_none());
    assert!(config.meta.tags.is_empty() && config.meta.extra.is_empty());
    assert_eq!(rule_graph::CookieStorage::default(), rule_graph::CookieStorage::Memory);
    assert_eq!(rule_graph::HttpCachePolicy::default(), rule_graph::HttpCachePolicy::Smart);
    assert_eq!(rule_graph::CacheStorage::default(), rule_graph::CacheStorage::Memory);
}
