use rule_graph::{
    is_type_compatible, Connection, DataType, DomainError, MediaType, Node, NodeGraph, Port,
    ValidationError,
};

fn empty_object() -> serde_json::Value {
    serde_json::Value::Object(serde_json::Map::new())
}

fn node(id: &str, inputs: Vec<Port>, outputs: Vec<Port>) -> Node {
    Node::new(id, "test", empty_object())
        .with_inputs(inputs)
        .with_outputs(outputs)
}

fn source_and_sink(out: DataType, input: Port) -> NodeGraph {
    let mut graph = NodeGraph::new(MediaType::General);
    graph
        .add_node(node("A", vec![], vec![Port::new("out", out)]))
        .unwrap();
    graph.add_node(node("B", vec![input], vec![])).unwrap();
    graph
}

fn all_types() -> [DataType; 7] {
    [
        DataType::String,
        DataType::Number,
        DataType::Boolean,
        DataType::Array,
        DataType::Object,
        DataType::Binary,
        DataType::Any,
    ]
}

#[test]
fn compatibility_table() {
    for s in all_types() {
        for t in all_types() {
            let expected = s == t
                || s == DataType::Any
                || t == DataType::Any
                || (s == DataType::Array && t == DataType::Object);
            assert_eq!(is_type_compatible(s, t), expected, "{:?} -> {:?}", s, t);
        }
    }
    assert!(is_type_compatible(DataType::Array, DataType::Object));
    assert!(!is_type_compatible(DataType::Object, DataType::Array));
    assert!(!is_type_compatible(DataType::String, DataType::Number));
}

#[test]
fn wired_pair_is_valid_and_sorted() {
    let mut graph = source_and_sink(DataType::String, Port::new("in", DataType::String));
    graph
        .add_connection(Connection::new("A", "out", "B", "in"))
        .unwrap();
    assert!(graph.validate().is_ok());
    assert_eq!(
        graph.topological_sort().unwrap(),
        vec!["A".to_string(), "B".to_string()]
    );
}

#[test]
fn wired_pair_is_sorted_the_same_whatever_the_node_order() {
    let mut graph = NodeGraph::new(MediaType::General);
    graph
        .add_node(node("B", vec![Port::new("in", DataType::String)], vec![]))
        .unwrap();
    graph
        .add_node(node("A", vec![], vec![Port::new("out", DataType::String)]))
        .unwrap();
    graph
        .add_connection(Connection::new("A", "out", "B", "in"))
        .unwrap();
    assert!(graph.validate().is_ok());
    assert_eq!(
        graph.topological_sort().unwrap(),
        vec!["A".to_string(), "B".to_string()]
    );
}

#[test]
fn back_connection_is_caught_by_the_cycle_phase() {
    let mut graph = source_and_sink(DataType::String, Port::new("in", DataType::String));
    graph
        .add_connection(Connection::new("A", "out", "B", "in"))
        .unwrap();
    graph
        .add_connection(Connection::new("B", "out", "A", "in"))
        .unwrap();
    match graph.validate() {
        Err(DomainError::Validation(ValidationError::CycleDetected { cycle })) => {
            assert_eq!(cycle.len(), 2);
            assert!(cycle.contains(&"A".to_string()));
            assert!(cycle.contains(&"B".to_string()));
        }
        other => panic!("unexpected: {:?}", other),
    }
    assert!(graph.topological_sort().is_err());
}

#[test]
fn cycle_is_reported_from_where_it_closes() {
    let mut graph = NodeGraph::new(MediaType::General);
    for id in ["start", "x", "y", "z"] {
        graph.add_node(node(id, vec![], vec![])).unwrap();
    }
    graph
        .add_connection(Connection::new("start", "o", "x", "i"))
        .unwrap();
    graph
        .add_connection(Connection::new("x", "o", "y", "i"))
        .unwrap();
    graph
        .add_connection(Connection::new("y", "o", "z", "i"))
        .unwrap();
    graph
        .add_connection(Connection::new("z", "o", "x", "i"))
        .unwrap();
    match graph.validate() {
        Err(DomainError::Validation(ValidationError::CycleDetected { cycle })) => {
            assert_eq!(
                cycle,
                vec!["x".to_string(), "y".to_string(), "z".to_string()]
            );
        }
        other => panic!("unexpected: {:?}", other),
    }
}

#[test]
fn self_connection_is_a_cycle() {
    let mut graph = NodeGraph::new(MediaType::General);
    graph.add_node(node("a", vec![], vec![])).unwrap();
    graph
        .add_connection(Connection::new("a", "o", "a", "i"))
        .unwrap();
    match graph.validate() {
        Err(DomainError::Validation(ValidationError::CycleDetected { cycle })) => {
            assert_eq!(cycle, vec!["a".to_string()]);
        }
        other => panic!("unexpected: {:?}", other),
    }
}

#[test]
fn missing_end_node_comes_before_everything_else() {
    let mut graph = source_and_sink(DataType::String, Port::new("in", DataType::String));
    graph
        .add_connection(Connection::new("A", "out", "B", "in"))
        .unwrap();
    graph
        .add_connection(Connection::new("B", "out", "A", "in"))
        .unwrap();
    graph.connections.push(Connection::new("A", "out", "gone", "in"));
    match graph.validate() {
        Err(DomainError::Validation(ValidationError::NodeNotFound { node_id })) => {
            assert_eq!(node_id, "gone")
        }
        other => panic!("unexpected: {:?}", other),
    }
    graph.connections.insert(0, Connection::new("lost", "out", "gone", "in"));
    match graph.validate() {
        Err(DomainError::Validation(ValidationError::NodeNotFound { node_id })) => {
            assert_eq!(node_id, "lost")
        }
        other => panic!("unexpected: {:?}", other),
    }
}

#[test]
fn required_port_must_be_fed() {
    let graph = source_and_sink(DataType::String, Port::new("in", DataType::String));
    match graph.validate() {
        Err(DomainError::Validation(ValidationError::PortNotConnected { node_id, port_id })) => {
            assert_eq!(node_id, "B");
            assert_eq!(port_id, "in");
        }
        other => panic!("unexpected: {:?}", other),
    }
}

#[test]
fn optional_port_may_stay_unfed() {
    let graph = source_and_sink(
        DataType::String,
        Port::new("in", DataType::String).optional(),
    );
    assert!(graph.validate().is_ok());
}

#[test]
fn source_port_must_exist() {
    let mut graph = source_and_sink(DataType::String, Port::new("in", DataType::String));
    graph
        .add_connection(Connection::new("A", "other", "B", "in"))
        .unwrap();
    match graph.validate() {
        Err(DomainError::Validation(ValidationError::PortNotFound { node_id, port_id })) => {
            assert_eq!(node_id, "A");
            assert_eq!(port_id, "other");
        }
        other => panic!("unexpected: {:?}", other),
    }
}

#[test]
fn target_port_must_exist() {
    let mut graph = source_and_sink(
        DataType::String,
        Port::new("in", DataType::String).optional(),
    );
    graph
        .add_connection(Connection::new("A", "out", "B", "other"))
        .unwrap();
    match graph.validate() {
        Err(DomainError::Validation(ValidationError::PortNotFound { node_id, port_id })) => {
            assert_eq!(node_id, "B");
            assert_eq!(port_id, "other");
        }
        other => panic!("unexpected: {:?}", other),
    }
}

#[test]
fn types_must_fit() {
    let mut graph = source_and_sink(DataType::String, Port::new("in", DataType::Number));
    graph
        .add_connection(Connection::new("A", "out", "B", "in"))
        .unwrap();
    match graph.validate() {
        Err(DomainError::Validation(ValidationError::TypeMismatch {
            from_node,
            from_port,
            to_node,
            to_port,
            expected,
            actual,
        })) => {
            assert_eq!(from_node, "A");
            assert_eq!(from_port, "out");
            assert_eq!(to_node, "B");
            assert_eq!(to_port, "in");
            assert_eq!(expected, DataType::Number);
            assert_eq!(actual, DataType::String);
        }
        other => panic!("unexpected: {:?}", other),
    }
}

#[test]
fn array_feeds_object_but_not_the_reverse() {
    let mut graph = source_and_sink(DataType::Array, Port::new("in", DataType::Object));
    graph
        .add_connection(Connection::new("A", "out", "B", "in"))
        .unwrap();
    assert!(graph.validate().is_ok());

    let mut graph = source_and_sink(DataType::Object, Port::new("in", DataType::Array));
    graph
        .add_connection(Connection::new("A", "out", "B", "in"))
        .unwrap();
    assert!(graph.validate().is_err());

    let mut graph = source_and_sink(DataType::Any, Port::new("in", DataType::Binary));
    graph
        .add_connection(Connection::new("A", "out", "B", "in"))
        .unwrap();
    assert!(graph.validate().is_ok());
}

#[test]
fn last_connection_into_a_port_is_the_one_checked() {
    let mut graph = NodeGraph::new(MediaType::General);
    graph
        .add_node(node("text", vec![], vec![Port::new("out", DataType::String)]))
        .unwrap();
    graph
        .add_node(node("num", vec![], vec![Port::new("out", DataType::Number)]))
        .unwrap();
    graph
        .add_node(node("sink", vec![Port::new("in", DataType::Number)], vec![]))
        .unwrap();
    graph
        .add_connection(Connection::new("text", "out", "sink", "in"))
        .unwrap();
    graph
        .add_connection(Connection::new("num", "out", "sink", "in"))
        .unwrap();
    assert!(graph.validate().is_ok());

    let mut graph = NodeGraph::new(MediaType::General);
    graph
        .add_node(node("text", vec![], vec![Port::new("out", DataType::String)]))
        .unwrap();
    graph
        .add_node(node("num", vec![], vec![Port::new("out", DataType::Number)]))
        .unwrap();
    graph
        .add_node(node("sink", vec![Port::new("in", DataType::Number)], vec![]))
        .unwrap();
    graph
        .add_connection(Connection::new("num", "out", "sink", "in"))
        .unwrap();
    graph
        .add_connection(Connection::new("text", "out", "sink", "in"))
        .unwrap();
    assert!(matches!(
        graph.validate(),
        Err(DomainError::Validation(
            ValidationError::TypeMismatch { .. }
        ))
    ));
}

#[test]
fn unfed_port_is_reported_before_a_bad_connection_of_the_same_node() {
    let mut graph = NodeGraph::new(MediaType::General);
    graph
        .add_node(node("A", vec![], vec![Port::new("out", DataType::String)]))
        .unwrap();
    graph
        .add_node(node(
            "B",
            vec![
                Port::new("typed", DataType::Number),
                Port::new("needed", DataType::String),
            ],
            vec![],
        ))
        .unwrap();
    graph
        .add_connection(Connection::new("A", "out", "B", "typed"))
        .unwrap();
    match graph.validate() {
        Err(DomainError::Validation(ValidationError::PortNotConnected { node_id, port_id })) => {
            assert_eq!(node_id, "B");
            assert_eq!(port_id, "needed");
        }
        other => panic!("unexpected: {:?}", other),
    }
}
