use rule_graph::{DataType, DomainError, ValidationError};

fn s(text: &str) -> String {
    text.to_string()
}

#[test]
fn data_type_names() {
    assert_eq!(DataType::String.to_string(), "string");
    assert_eq!(DataType::Number.to_string(), "number");
    assert_eq!(DataType::Boolean.to_string(), "boolean");
    assert_eq!(DataType::Array.to_string(), "array");
    assert_eq!(DataType::Object.to_string(), "object");
    assert_eq!(DataType::Binary.to_string(), "binary");
    assert_eq!(DataType::Any.to_string(), "any");
    assert_eq!(DataType::Boolean.debug_name(), "Boolean");
    assert_eq!(
        DataType::Binary.debug_name(),
        format!("{:?}", DataType::Binary)
    );
}

#[test]
fn validation_error_messages() {
    assert_eq!(
        ValidationError::CycleDetected {
            cycle: vec![s("a"), s("b"), s("c")]
        }
        .to_string(),
        "Cycle detected in node graph: a -> b -> c"
    );
    assert_eq!(
        ValidationError::CycleDetected { cycle: vec![s("a")] }.to_string(),
        "Cycle detected in node graph: a"
    );
    assert_eq!(
        ValidationError::CycleDetected { cycle: vec![] }.to_string(),
        "Cycle detected in node graph: "
    );
    assert_eq!(
        ValidationError::PortNotConnected {
            node_id: s("n"),
            port_id: s("p")
        }
        .to_string(),
        "Port 'p' of node 'n' is not connected"
    );
    assert_eq!(
        ValidationError::TypeMismatch {
            from_node: s("a"),
            from_port: s("out"),
            to_node: s("b"),
            to_port: s("in"),
            expected: DataType::Number,
            actual: DataType::String,
        }
        .to_string(),
        "Type mismatch: a@out -> b@in (expected Number, got String)"
    );
    assert_eq!(
        ValidationError::InvalidNodeConfig {
            node_id: s("n"),
            node_type: s("t"),
            reason: s("why")
        }
        .to_string(),
        "Invalid config for node 'n' (type 't'): why"
    );
    assert_eq!(
        ValidationError::MissingEntryNode {
            expected_type: s("start")
        }
        .to_string(),
        "Missing entry node of type 'start'"
    );
    assert_eq!(
        ValidationError::MissingExitNode {
            expected_type: s("end")
        }
        .to_string(),
        "Missing exit node of type 'end'"
    );
    assert_eq!(
        ValidationError::NodeNotFound { node_id: s("n") }.to_string(),
        "Node 'n' not found"
    );
    assert_eq!(
        ValidationError::PortNotFound {
            node_id: s("n"),
            port_id: s("p")
        }
        .to_string(),
        "Port 'p' not found on node 'n'"
    );
    assert_eq!(
        ValidationError::DuplicateNodeId { node_id: s("n") }.to_string(),
        "Duplicate node ID: 'n'"
    );
    assert_eq!(
        ValidationError::Other { message: s("m") }.to_string(),
        "Validation error: m"
    );
}

#[test]
fn domain_error_messages() {
    assert_eq!(
        DomainError::Validation(ValidationError::NodeNotFound { node_id: s("n") }).to_string(),
        "Validation error: Node 'n' not found"
    );
    assert_eq!(
        DomainError::Infrastructure(s("down")).to_string(),
        "Infrastructure error: down"
    );
    assert_eq!(
        DomainError::Execution(s("failed")).to_string(),
        "Execution error: failed"
    );
    assert_eq!(DomainError::NotFound(s("x")).to_string(), "Not found: x");
    assert_eq!(DomainError::Other(s("plain")).to_string(), "plain");
}

#[test]
fn outside_errors_convert_and_keep_their_text() {
    let bad: Result<serde_json::Value, serde_json::Error> = serde_json::from_str("{");
    let inner = bad.unwrap_err();
    let text = inner.to_string();
    let error = DomainError::from(inner);
    assert!(matches!(error, DomainError::Serialization(_)));
    assert_eq!(error.to_string(), format!("Serialization error: {}", text));

    let inner = std::io::Error::new(std::io::ErrorKind::Other, "disk full");
    let error: DomainError = inner.into();
    assert!(matches!(error, DomainError::Io(_)));
    assert_eq!(error.to_string(), "IO error: disk full");
}
