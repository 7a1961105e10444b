use rule_graph::{DataType, Node, NodeBuilder, Port, Position};

fn empty_object() -> serde_json::Value {
    serde_json::Value::Object(serde_json::Map::new())
}

fn object_with(key: &str, value: serde_json::Value) -> serde_json::Value {
    let mut map = serde_json::Map::new();
    map.insert(key.to_string(), value);
    serde_json::Value::Object(map)
}

fn read_i32(value: Option<&serde_json::Value>) -> Option<i32> {
    value.and_then(|v| serde_json::from_value(v.clone()).ok())
}

fn read_string(value: Option<&serde_json::Value>) -> Option<String> {
    value.and_then(|v| serde_json::from_value(v.clone()).ok())
}

#[test]
fn test_node_creation() {
    let node = Node::new(
        "test_node",
        "constant",
        object_with("value", serde_json::Value::from(42)),
    );
    assert_eq!(node.id, "test_node");
    assert_eq!(node.node_type, "constant");
    assert_eq!(read_i32(node.get_config("value")), Some(42));
}

#[test]
fn test_node_with_ports() {
    let node = Node::new("test", "test_type", empty_object())
        .with_inputs(vec![Port::new("input", DataType::String)])
        .with_outputs(vec![Port::new("output", DataType::String)]);

    assert_eq!(node.inputs.len(), 1);
    assert_eq!(node.outputs.len(), 1);
    assert!(node.get_input("input").is_some());
    assert!(node.get_output("output").is_some());
}

#[test]
fn test_node_builder() {
    let node = NodeBuilder::new("test", "constant")
        .set("value", serde_json::Value::from("hello"))
        .input(Port::new("in", DataType::String))
        .output(Port::new("out", DataType::String))
        .position(100, 200)
        .build();

    assert_eq!(node.id, "test");
    assert_eq!(
        read_string(node.get_config("value")),
        Some("hello".to_string())
    );
    assert_eq!(node.position, Some(Position::new(100, 200)));
}

#[test]
fn node_config_reads_only_members_of_objects() {
    let node = Node::new("n", "t", object_with("a", serde_json::Value::from(1)));
    assert!(node.get_config("a").is_some());
    assert!(node.get_config("b").is_none());
    let node = Node::new("n", "t", serde_json::Value::from("text"));
    assert!(node.get_config("a").is_none());
}

#[test]
fn node_set_config_adds_and_replaces() {
    let mut node = Node::new("n", "t", empty_object());
    node.set_config("a", serde_json::Value::from(1));
    node.set_config("b", serde_json::Value::from(true));
    node.set_config("a", serde_json::Value::from("again"));
    assert_eq!(
        node.get_config("a"),
        Some(&serde_json::Value::from("again"))
    );
    assert_eq!(node.get_config("b"), Some(&serde_json::Value::from(true)));
    assert_eq!(node.config.as_object().unwrap().len(), 2);
}

#[test]
fn node_set_config_turns_null_into_an_object() {
    let mut node = Node::new("n", "t", serde_json::Value::Null);
    node.set_config("a", serde_json::Value::from(1));
    assert_eq!(node.config, object_with("a", serde_json::Value::from(1)));
}

#[test]
fn node_try_set_config_refuses_what_cannot_hold_members() {
    let mut node = Node::new("n", "t", serde_json::Value::from(7));
    assert!(!node.try_set_config("a", serde_json::Value::from(1)));
    assert_eq!(node.config, serde_json::Value::from(7));

    let mut node = Node::new("n", "t", serde_json::Value::Array(Vec::new()));
    assert!(!node.try_set_config("a", serde_json::Value::from(1)));

    let mut node = Node::new("n", "t", empty_object());
    assert!(node.try_set_config("a", serde_json::Value::from(1)));
    assert_eq!(node.config, object_with("a", serde_json::Value::from(1)));

    let mut node = Node::new("n", "t", serde_json::Value::Null);
    assert!(node.try_set_config("a", serde_json::Value::from(1)));
    assert_eq!(node.config, object_with("a", serde_json::Value::from(1)));
}

#[test]
fn node_ports_resolve_to_the_first_match() {
    let node = Node::new("n", "t", empty_object()).with_inputs(vec![
        Port::new("in", DataType::String),
        Port::new("in", DataType::Number),
    ]);
    assert_eq!(node.get_input("in").unwrap().data_type, DataType::String);
    assert!(node.get_input("other").is_none());
    assert!(node.get_output("in").is_none());
}

#[test]
fn node_builders_set_their_fields() {
    let node = Node::new("n", "t", empty_object())
        .with_position(Position::new(-3, 9))
        .with_disabled(true);
    assert_eq!(node.position, Some(Position::new(-3, 9)));
    assert!(node.disabled);
    assert!(node.inputs.is_empty());

    let built = NodeBuilder::new("b", "kind")
        .config(object_with("k", serde_json::Value::from("v")))
        .build();
    assert_eq!(built.config, object_with("k", serde_json::Value::from("v")));
    assert_eq!(NodeBuilder::new("b", "kind").build().config, empty_object());
}

#[test]
fn port_builders_set_their_fields() {
    let port = Port::new("p", DataType::Binary);
    assert_eq!(port.id, "p");
    assert!(!port.optional);
    assert_eq!(port.display_name, None);
    let port = port.optional().with_display_name("Shown");
    assert!(port.optional);
    assert_eq!(port.display_name, Some("Shown".to_string()));
    assert_eq!(port.data_type, DataType::Binary);
}

#[test]
fn static_port_def_becomes_a_port() {
    let required = rule_graph::StaticPortDef::required("in", DataType::Array, "Input", "what comes in");
    assert!(!required.optional);
    let optional = rule_graph::StaticPortDef::optional_port("opt", DataType::Any, "Maybe", "may be absent");
    assert!(optional.optional);
    let full = rule_graph::StaticPortDef::new("x", DataType::Number, true, "X", "an x");
    assert_eq!(full.description, "an x");
    let port = optional.to_port();
    assert_eq!(port.id, "opt");
    assert_eq!(port.data_type, DataType::Any);
    assert!(port.optional);
    assert_eq!(port.display_name, Some("Maybe".to_string()));
}
