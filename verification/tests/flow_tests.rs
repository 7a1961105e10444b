use rule_graph::graph::Meta;
use rule_graph::{
    CrawlerRule, DataType, Flow, FlowConfig, FlowType, Flows, MediaType, Node, NodeGraph, Port,
};

fn empty_object() -> serde_json::Value {
    serde_json::Value::Object(serde_json::Map::new())
}

fn exit_only_graph() -> NodeGraph {
    let mut graph = NodeGraph::new(MediaType::General);
    graph.add_node(Node::new("sink", "output", empty_object())).unwrap();
    graph
}

fn complete_flows() -> Flows {
    Flows::new()
        .with_discovery(Flow::new(FlowType::Discovery, exit_only_graph()))
        .with_search(Flow::new(FlowType::Search, exit_only_graph()))
        .with_detail(Flow::new(FlowType::Detail, exit_only_graph()))
        .with_content(Flow::new(FlowType::Content, exit_only_graph()))
}

#[test]
fn test_flow_type_display() {
    assert_eq!(FlowType::Login.display_name(), "登录");
    assert_eq!(FlowType::Search.as_str(), "search");
}

#[test]
fn test_flow_type_from_str() {
    assert_eq!(FlowType::from_str("login").unwrap(), FlowType::Login);
    assert_eq!(FlowType::from_str("SEARCH").unwrap(), FlowType::Search);
    assert!(FlowType::from_str("invalid").is_err());
}

#[test]
fn test_flow_config_builder() {
    let config = FlowConfig::new(FlowType::Search)
        .with_description("搜索流程")
        .with_enabled(true);

    assert_eq!(config.flow_type, FlowType::Search);
    assert_eq!(config.description, Some("搜索流程".to_string()));
    assert!(config.enabled);
}

#[test]
fn test_flows_builder() {
    let flows = Flows::new()
        .with_discovery(Flow::new(
            FlowType::Discovery,
            NodeGraph::new(MediaType::General),
        ))
        .with_search(Flow::new(
            FlowType::Search,
            NodeGraph::new(MediaType::General),
        ));

    assert!(flows.discovery.is_some());
    assert!(flows.search.is_some());
}

#[test]
fn test_flows_validate() {
    let flows = Flows::new();
    assert!(flows.validate().is_err());

    let flows = Flows::new()
        .with_discovery(Flow::new(
            FlowType::Discovery,
            NodeGraph::new(MediaType::General),
        ))
        .with_search(Flow::new(
            FlowType::Search,
            NodeGraph::new(MediaType::General),
        ))
        .with_detail(Flow::new(
            FlowType::Detail,
            NodeGraph::new(MediaType::General),
        ))
        .with_content(Flow::new(
            FlowType::Content,
            NodeGraph::new(MediaType::General),
        ));

    assert!(flows.validate().is_ok());
}

#[test]
fn test_crawler_rule() {
    let rule = CrawlerRule::new(MediaType::Video).with_meta(Meta {
        name: Some("测试规则".to_string()),
        ..Default::default()
    });

    assert_eq!(rule.media_type, MediaType::Video);
    assert_eq!(rule.meta.name, Some("测试规则".to_string()));
}

#[test]
fn test_flow_validation() {
    let graph = NodeGraph::new(MediaType::General);
    let flow = Flow::new(FlowType::Discovery, graph);

    assert!(flow.validate().is_err());
}

#[test]
fn test_flow_type_required() {
    assert!(!FlowType::Login.is_required());
    assert!(FlowType::Discovery.is_required());
    assert!(FlowType::Search.is_required());
    assert!(FlowType::Detail.is_required());
    assert!(FlowType::Content.is_required());
}

#[test]
fn flow_type_words_and_aliases() {
    assert_eq!(FlowType::from_str("discover").unwrap(), FlowType::Discovery);
    assert_eq!(FlowType::from_str("Discovery").unwrap(), FlowType::Discovery);
    assert_eq!(FlowType::from_str("DETAIL").unwrap(), FlowType::Detail);
    assert_eq!(FlowType::from_str("content").unwrap(), FlowType::Content);
    assert_eq!(
        FlowType::from_str("Nope").unwrap_err(),
        "Unknown flow type: Nope"
    );
    assert_eq!("search".parse::<FlowType>().unwrap(), FlowType::Search);
    assert_eq!(FlowType::default(), FlowType::Login);
    assert_eq!(FlowType::Detail.to_string(), "详情");
}

#[test]
fn flow_type_all_is_in_running_order() {
    assert_eq!(
        FlowType::all(),
        &[
            FlowType::Login,
            FlowType::Discovery,
            FlowType::Search,
            FlowType::Detail,
            FlowType::Content
        ]
    );
}

#[test]
fn media_type_words_and_aliases() {
    assert_eq!(MediaType::from_str("video").unwrap(), MediaType::Video);
    assert_eq!(MediaType::from_str("AUDIO").unwrap(), MediaType::Music);
    assert_eq!(MediaType::from_str("Book").unwrap(), MediaType::Novel);
    assert_eq!(MediaType::from_str("manga").unwrap(), MediaType::Comic);
    assert_eq!(MediaType::from_str("picture").unwrap(), MediaType::Image);
    assert_eq!(MediaType::from_str("general").unwrap(), MediaType::General);
    assert_eq!(
        MediaType::from_str("film").unwrap_err(),
        "Unknown media type: film"
    );
    assert_eq!("novel".parse::<MediaType>().unwrap(), MediaType::Novel);
    assert_eq!(MediaType::Video.display_name(), "视频");
    assert_eq!(MediaType::Comic.as_str(), "comic");
    assert_eq!(MediaType::General.to_string(), "通用");
    assert_eq!(MediaType::default(), MediaType::General);
}

#[test]
fn flow_without_exit_node_reports_it() {
    let flow = Flow::new(FlowType::Discovery, NodeGraph::new(MediaType::General));
    assert_eq!(
        flow.validate().unwrap_err(),
        "发现 flow must have at least one exit node"
    );

    let mut graph = NodeGraph::new(MediaType::General);
    graph
        .add_node(
            Node::new("only", "test", empty_object())
                .with_outputs(vec![Port::new("out", DataType::String)]),
        )
        .unwrap();
    let flow = Flow::new(FlowType::Search, graph);
    assert_eq!(
        flow.validate().unwrap_err(),
        "搜索 flow must have at least one exit node"
    );
}

#[test]
fn flow_with_exit_node_is_valid() {
    let flow = Flow::new(FlowType::Content, exit_only_graph());
    assert!(flow.validate().is_ok());
    assert_eq!(flow.flow_type(), FlowType::Content);
}

#[test]
fn flow_reports_graph_failure_with_its_heading() {
    let mut graph = NodeGraph::new(MediaType::General);
    graph
        .add_node(
            Node::new("n", "test", empty_object())
                .with_inputs(vec![Port::new("in", DataType::String)]),
        )
        .unwrap();
    let flow = Flow::new(FlowType::Detail, graph);
    assert_eq!(
        flow.validate().unwrap_err(),
        "Validation error: Port 'in' of node 'n' is not connected"
    );
}

#[test]
fn flow_with_config_keeps_the_config_type() {
    let config = FlowConfig::new(FlowType::Login).with_enabled(false);
    let flow = Flow::with_config(FlowType::Search, exit_only_graph(), config);
    assert_eq!(flow.flow_type(), FlowType::Login);
    assert!(!flow.config.enabled);
}

#[test]
fn flows_report_the_first_missing_flow() {
    assert_eq!(
        Flows::new().validate().unwrap_err(),
        "Discovery flow is required"
    );
    let flows = Flows::new().with_discovery(Flow::new(FlowType::Discovery, exit_only_graph()));
    assert_eq!(flows.validate().unwrap_err(), "Search flow is required");
    let flows = flows.with_search(Flow::new(FlowType::Search, exit_only_graph()));
    assert_eq!(flows.validate().unwrap_err(), "Detail flow is required");
    let flows = flows.with_detail(Flow::new(FlowType::Detail, exit_only_graph()));
    assert_eq!(flows.validate().unwrap_err(), "Content flow is required");
    let flows = flows.with_content(Flow::new(FlowType::Content, exit_only_graph()));
    assert!(flows.validate().is_ok());
    let flows = flows.with_login(Flow::new(FlowType::Login, exit_only_graph()));
    assert!(flows.validate().is_ok());
}

#[test]
fn flows_get_and_defined_flows() {
    let mut flows = complete_flows();
    assert!(flows.get(FlowType::Login).is_none());
    assert!(flows.get(FlowType::Search).is_some());
    let defined = flows.defined_flows();
    let types: Vec<FlowType> = defined.iter().map(|(t, _)| *t).collect();
    assert_eq!(
        types,
        vec![
            FlowType::Discovery,
            FlowType::Search,
            FlowType::Detail,
            FlowType::Content
        ]
    );
    match flows.get_mut(FlowType::Detail) {
        Some(flow) => flow.config.enabled = false,
        None => panic!("detail flow is there"),
    }
    assert!(!flows.get(FlowType::Detail).unwrap().config.enabled);
    assert!(flows.get_mut(FlowType::Login).is_none());
}

#[test]
fn rule_validation_cascades() {
    let rule = CrawlerRule::new(MediaType::Video);
    assert_eq!(rule.validate().unwrap_err(), "Discovery flow is required");

    let rule = CrawlerRule::new(MediaType::Video).with_flows(complete_flows());
    assert!(rule.validate().is_ok());
    assert!(rule.get_flow(FlowType::Content).is_some());
    assert!(rule.get_flow(FlowType::Login).is_none());

    let flows = complete_flows().with_search(Flow::new(
        FlowType::Search,
        NodeGraph::new(MediaType::General),
    ));
    let rule = CrawlerRule::new(MediaType::Video).with_flows(flows);
    assert_eq!(
        rule.validate().unwrap_err(),
        "搜索 flow validation failed: 搜索 flow must have at least one exit node"
    );

    let flows = complete_flows().with_login(Flow::new(
        FlowType::Login,
        NodeGraph::new(MediaType::General),
    ));
    let rule = CrawlerRule::new(MediaType::Video).with_flows(flows);
    assert_eq!(
        rule.validate().unwrap_err(),
        "登录 flow validation failed: 登录 flow must have at least one exit node"
    );
}
