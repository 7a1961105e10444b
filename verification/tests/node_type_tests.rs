use rule_graph::{
    DataType, NodeCategory, NodeTypeMetadata, NodeTypeRegistry, NodeTypeRegistryBuilder, PortDef,
};

fn text(s: &str) -> serde_json::Value {
    serde_json::Value::String(s.to_string())
}

fn object(members: Vec<(&str, serde_json::Value)>) -> serde_json::Value {
    let mut map = serde_json::Map::new();
    for (key, value) in members {
        map.insert(key.to_string(), value);
    }
    serde_json::Value::Object(map)
}

#[test]
fn test_node_category_display() {
    assert_eq!(NodeCategory::DataSource.display_name(), "数据源");
    assert_eq!(NodeCategory::Selector.as_str(), "selector");
}

#[test]
fn test_port_def_builder() {
    let port = PortDef::new("output", DataType::String)
        .optional()
        .with_display_name("输出端口")
        .with_description("这是一个输出端口");

    assert_eq!(port.id, "output");
    assert_eq!(port.data_type, DataType::String);
    assert!(port.optional);
    assert_eq!(port.display_name, "输出端口");
}

#[test]
fn test_node_type_metadata_builder() {
    let metadata = NodeTypeMetadata::new(
        "test_node",
        "测试节点",
        NodeCategory::DataSource,
        NodeTypeMetadata::empty_config_schema(),
    )
    .with_description("这是一个测试节点")
    .with_icon("🔧")
    .add_tag("test")
    .auto_detect_entry_exit();

    assert_eq!(metadata.type_id, "test_node");
    assert_eq!(metadata.display_name, "测试节点");
    assert_eq!(metadata.category, NodeCategory::DataSource);
    assert!(metadata.tags.contains(&"test".to_string()));
}

#[test]
fn test_node_type_registry() {
    let mut registry = NodeTypeRegistry::new();

    let metadata = NodeTypeMetadata::new(
        "test_node",
        "测试节点",
        NodeCategory::DataSource,
        NodeTypeMetadata::empty_config_schema(),
    );

    registry.register(metadata).unwrap();

    assert!(registry.get("test_node").is_some());
    assert_eq!(registry.by_category(NodeCategory::DataSource).len(), 1);
}

#[test]
fn test_registry_search() {
    let mut registry = NodeTypeRegistry::new();

    let metadata = NodeTypeMetadata::new(
        "http_request",
        "HTTP请求",
        NodeCategory::DataSource,
        NodeTypeMetadata::empty_config_schema(),
    )
    .with_description("发送HTTP请求获取数据");

    registry.register(metadata).unwrap();

    let results = registry.search("http");
    assert_eq!(results.len(), 1);

    let results = registry.search("请求");
    assert_eq!(results.len(), 1);
}

#[test]
fn category_names_and_order() {
    assert_eq!(NodeCategory::Control.display_name(), "流程控制");
    assert_eq!(NodeCategory::DataSource.as_str(), "data_source");
    assert_eq!(NodeCategory::Cache.to_string(), "缓存");
    assert_eq!(NodeCategory::all().len(), 7);
    assert_eq!(NodeCategory::all()[0], NodeCategory::DataSource);
    assert_eq!(NodeCategory::all()[6], NodeCategory::Cache);
}

#[test]
fn empty_schema_is_an_object_without_properties() {
    assert_eq!(
        NodeTypeMetadata::empty_config_schema(),
        object(vec![("type", text("object")), ("properties", object(vec![]))])
    );
}

#[test]
fn string_schema_with_and_without_default() {
    let expected = object(vec![
        ("type", text("object")),
        (
            "properties",
            object(vec![(
                "url",
                object(vec![
                    ("type", text("string")),
                    ("title", text("URL")),
                    ("description", text("where to go")),
                    ("default", text("http://x")),
                ]),
            )]),
        ),
        ("required", serde_json::Value::Array(vec![text("url")])),
    ]);
    assert_eq!(
        NodeTypeMetadata::string_config_schema("url", "URL", "where to go", Some("http://x")),
        expected
    );

    let plain = NodeTypeMetadata::string_config_schema("url", "URL", "where to go", None);
    let field = &plain["properties"]["url"];
    assert_eq!(field.as_object().unwrap().len(), 3);
    assert!(field.get("default").is_none());
    assert_eq!(plain["required"], serde_json::Value::Array(vec![text("url")]));
}

#[test]
fn enum_schema_lists_the_options_in_order() {
    let expected = object(vec![
        ("type", text("object")),
        (
            "properties",
            object(vec![(
                "method",
                object(vec![
                    ("type", text("string")),
                    ("title", text("Method")),
                    ("description", text("how to ask")),
                    (
                        "enum",
                        serde_json::Value::Array(vec![text("GET"), text("POST")]),
                    ),
                    ("default", text("GET")),
                ]),
            )]),
        ),
        ("required", serde_json::Value::Array(vec![text("method")])),
    ]);
    assert_eq!(
        NodeTypeMetadata::enum_config_schema(
            "method",
            "Method",
            "how to ask",
            &["GET", "POST"],
            "GET"
        ),
        expected
    );
}

#[test]
fn boolean_schema_holds_the_default() {
    let expected = object(vec![
        ("type", text("object")),
        (
            "properties",
            object(vec![(
                "follow",
                object(vec![
                    ("type", text("boolean")),
                    ("title", text("Follow")),
                    ("description", text("follow redirects")),
                    ("default", serde_json::Value::Bool(true)),
                ]),
            )]),
        ),
        ("required", serde_json::Value::Array(vec![text("follow")])),
    ]);
    assert_eq!(
        NodeTypeMetadata::boolean_config_schema("follow", "Follow", "follow redirects", true),
        expected
    );
}

#[test]
fn metadata_builders_set_their_fields() {
    let metadata = NodeTypeMetadata::new(
        "t",
        "T",
        NodeCategory::Filter,
        NodeTypeMetadata::empty_config_schema(),
    );
    assert_eq!(metadata.extra, object(vec![]));
    assert!(!metadata.is_entry && !metadata.is_exit && !metadata.deprecated);

    let metadata = metadata
        .add_input_port(PortDef::new("in", DataType::String))
        .add_output_port(PortDef::new("out", DataType::Number))
        .add_output_port(PortDef::new("err", DataType::Any))
        .with_example_config(object(vec![("a", text("b"))]))
        .deprecated("use u")
        .add_tag("one")
        .add_tag("two");
    assert_eq!(metadata.input_ports.len(), 1);
    assert_eq!(metadata.output_ports[1].id, "err");
    assert_eq!(metadata.example_config, Some(object(vec![("a", text("b"))])));
    assert!(metadata.deprecated);
    assert_eq!(metadata.deprecation_message, Some("use u".to_string()));
    assert_eq!(metadata.tags, vec!["one".to_string(), "two".to_string()]);

    let auto = metadata.clone().auto_detect_entry_exit();
    assert!(!auto.is_entry && !auto.is_exit);
    let bare = NodeTypeMetadata::new("s", "S", NodeCategory::Output, object(vec![]))
        .auto_detect_entry_exit();
    assert!(bare.is_entry && bare.is_exit);
    let marked = NodeTypeMetadata::new("s", "S", NodeCategory::Output, object(vec![]))
        .as_entry()
        .as_exit();
    assert!(marked.is_entry && marked.is_exit);
}

fn catalog() -> NodeTypeRegistry {
    NodeTypeRegistryBuilder::new()
        .register(
            NodeTypeMetadata::new(
                "http_request",
                "HTTP Request",
                NodeCategory::DataSource,
                NodeTypeMetadata::empty_config_schema(),
            )
            .with_description("Fetches a page")
            .as_entry(),
        )
        .register(
            NodeTypeMetadata::new(
                "css",
                "CSS Selector",
                NodeCategory::Selector,
                NodeTypeMetadata::empty_config_schema(),
            )
            .add_tag("HTML"),
        )
        .register(
            NodeTypeMetadata::new(
                "constant",
                "Constant",
                NodeCategory::DataSource,
                NodeTypeMetadata::empty_config_schema(),
            )
            .as_entry(),
        )
        .register(
            NodeTypeMetadata::new(
                "field",
                "Field",
                NodeCategory::Output,
                NodeTypeMetadata::empty_config_schema(),
            )
            .as_exit(),
        )
        .build()
}

fn ids(found: Vec<&NodeTypeMetadata>) -> Vec<String> {
    found.iter().map(|m| m.type_id.clone()).collect()
}

#[test]
fn registry_refuses_a_second_registration() {
    let mut registry = catalog();
    let again = NodeTypeMetadata::new(
        "css",
        "Other",
        NodeCategory::Filter,
        NodeTypeMetadata::empty_config_schema(),
    );
    assert_eq!(
        registry.register(again).unwrap_err(),
        "Node type already registered: css"
    );
    assert_eq!(registry.all_types().len(), 4);
    assert_eq!(registry.get("css").unwrap().display_name, "CSS Selector");
    assert!(registry.get("nothing").is_none());
}

#[test]
fn registry_lists_by_category_and_flags() {
    let registry = catalog();
    assert_eq!(
        ids(registry.all_types()),
        vec!["http_request", "css", "constant", "field"]
    );
    assert_eq!(
        ids(registry.by_category(NodeCategory::DataSource)),
        vec!["http_request", "constant"]
    );
    assert!(registry.by_category(NodeCategory::Script).is_empty());
    assert_eq!(ids(registry.entry_types()), vec!["http_request", "constant"]);
    assert_eq!(ids(registry.exit_types()), vec!["field"]);
    assert!(NodeTypeRegistry::default().all_types().is_empty());
    assert!(NodeTypeRegistryBuilder::default().build().all_types().is_empty());
}

#[test]
fn registry_search_ignores_case_and_looks_everywhere() {
    let registry = catalog();
    assert_eq!(ids(registry.search("HTTP")), vec!["http_request"]);
    assert_eq!(ids(registry.search("selector")), vec!["css"]);
    assert_eq!(ids(registry.search("fetches")), vec!["http_request"]);
    assert_eq!(ids(registry.search("html")), vec!["css"]);
    assert_eq!(ids(registry.search("const")), vec!["constant"]);
    assert!(registry.search("zzz").is_empty());
    assert_eq!(registry.search("").len(), 4);
}
