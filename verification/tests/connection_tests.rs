use rule_graph::Connection;

#[test]
fn test_connection_creation() {
    let conn = Connection::new("node1", "output", "node2", "input");
    assert_eq!(conn.from_node, "node1");
    assert_eq!(conn.from_port, "output");
    assert_eq!(conn.to_node, "node2");
    assert_eq!(conn.to_port, "input");
}

#[test]
fn test_connection_key() {
    let conn = Connection::new("node1", "output", "node2", "input");
    assert_eq!(conn.key(), "node1:output->node2:input");
}

#[test]
fn test_connection_reverse() {
    let conn = Connection::new("node1", "output", "node2", "input");
    let reversed = conn.reversed();
    assert_eq!(reversed.from_node, "node2");
    assert_eq!(reversed.from_port, "input");
    assert_eq!(reversed.to_node, "node1");
    assert_eq!(reversed.to_port, "output");
}
