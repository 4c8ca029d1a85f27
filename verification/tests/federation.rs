use casial_federation::config::{DownstreamMcpServer, FederationSettings};
use casial_federation::federation::{
    generate_execution_plan, CallOutcome, Dispatch, ErrorClass, ErrorKind, ExecutionMode,
    FederationError,
    FetchOutcome, ForwardStep, Link, McpFederationManager, SyncStart,
};
use casial_federation::registry::{RegistryChangeEvent, ToolRegistry, ToolSource, ToolSpec};
use serde_json::Value;

fn doc(text: &str) -> Value {
    serde_json::from_str(text).expect("test document")
}

fn server(id: &str, enabled: bool) -> DownstreamMcpServer {
    DownstreamMcpServer {
        id: id.to_string(),
        name: format!("Server {}", id),
        url: format!("ws://localhost:8001/{}", id),
        connection_type: "websocket".to_string(),
        enabled,
        timeout_ms: 5000,
        priority: 1,
        auth: None,
    }
}

fn settings(ids: &[&str]) -> FederationSettings {
    let mut settings = FederationSettings::default();
    settings.enabled = true;
    settings.downstream_servers = ids.iter().map(|id| server(id, true)).collect();
    settings
}

fn manager(settings: FederationSettings) -> McpFederationManager {
    McpFederationManager::new(settings, ToolRegistry::new())
}

fn tools_result(names: &[&str]) -> Value {
    let tools: Vec<String> = names
        .iter()
        .map(|name| {
            format!(
                r#"{{"name": "{}", "description": "Tool {}", "inputSchema": {{"type": "object", "properties": {{"query": {{"type": "string"}}}}, "required": ["query"]}}}}"#,
                name, name
            )
        })
        .collect();
    doc(&format!(r#"{{"tools": [{}]}}"#, tools.join(",")))
}

fn kind_of(result: Result<usize, FederationError>) -> ErrorKind {
    result.expect_err("a failure").kind
}

#[test]
fn test_federation_manager_creation() {
    let mut settings = FederationSettings::default();
    settings.enabled = true;

    let registry = ToolRegistry::new();
    let manager = McpFederationManager::new(settings, registry);

    assert_eq!(manager.backends().len(), 0);
}

#[test]
fn test_tool_spec_parsing() {
    let tool_data = doc(
        r#"{
            "name": "test_tool",
            "description": "A test tool",
            "inputSchema": {
                "type": "object",
                "properties": {
                    "query": {"type": "string"}
                },
                "required": ["query"]
            }
        }"#,
    );

    let spec = McpFederationManager::parse_tool_spec(&tool_data, "test_server", 0).unwrap();
    assert_eq!(spec.name, "test_tool");
    assert_eq!(spec.description, "A test tool");
    assert!(matches!(spec.source, ToolSource::Federated { .. }));
}

#[test]
fn tool_description_fills_in_what_is_missing() {
    let spec = McpFederationManager::parse_tool_spec(&doc(r#"{"name": "bare"}"#), "s1", 12).unwrap();
    assert_eq!(spec.name, "bare");
    assert_eq!(spec.description, "");
    assert_eq!(spec.input_schema, doc(r#"{"type": "object"}"#));
    assert_eq!(spec.output_schema, None);
    assert_eq!(spec.metadata, doc("{}"));
    assert_eq!(spec.spec_version, "1.0.0");
    assert_eq!(spec.spec_hash, "");
    assert_eq!(spec.last_updated, 12);
    assert!(
        matches!(spec.source, ToolSource::Federated { ref server_id, ref server_url } if server_id == "s1" && server_url == "server://s1")
    );
}

#[test]
fn tool_description_keeps_what_is_given() {
    let data = doc(
        r#"{"name": "full", "description": 7, "inputSchema": {"type": "string"}, "outputSchema": {"type": "number"}, "metadata": {"k": "v"}}"#,
    );
    let spec = McpFederationManager::parse_tool_spec(&data, "s1", 0).unwrap();
    assert_eq!(spec.description, "");
    assert_eq!(spec.input_schema, doc(r#"{"type": "string"}"#));
    assert_eq!(spec.output_schema, Some(doc(r#"{"type": "number"}"#)));
    assert_eq!(spec.metadata, doc(r#"{"k": "v"}"#));
}

#[test]
fn tool_description_without_a_name_is_refused() {
    for data in [r#"{"description": "nameless"}"#, r#"{"name": 5}"#, r#"["name"]"#, "null"] {
        let error = McpFederationManager::parse_tool_spec(&doc(data), "s1", 0).unwrap_err();
        assert_eq!(error.kind, ErrorKind::MissingToolName);
        assert_eq!(error.detail, "");
    }
}

#[test]
fn only_enabled_backends_are_connected() {
    let mut s = settings(&["a", "b", "c"]);
    s.downstream_servers[1].enabled = false;
    let m = manager(s.clone());
    let ids: Vec<&str> = m.backends().iter().map(|server| server.id.as_str()).collect();
    assert_eq!(ids, vec!["a", "c"]);
    assert!(m.knows_backend("a"));
    assert!(!m.knows_backend("b"));
    assert!(!m.knows_backend("z"));
    assert_eq!(m.refresh_interval(), Some(300));

    s.enabled = false;
    let off = manager(s.clone());
    assert!(off.backends().is_empty());
    assert!(!off.knows_backend("a"));
    assert_eq!(off.refresh_interval(), None);

    s.enabled = true;
    s.catalog_refresh_interval = 0;
    assert_eq!(manager(s).refresh_interval(), None);
}

#[test]
fn sync_registers_the_fetched_tools() {
    let mut m = manager(settings(&["a"]));
    assert!(!m.gate("a", 1_000));
    let synced = m.sync_server_tools("a", FetchOutcome::Fetched(tools_result(&["x", "y"])), 1_000);
    assert_eq!(synced.unwrap(), 2);
    let stored = m.registry().get_tool("x").unwrap();
    assert_eq!(stored.description, "Tool x");
    assert_eq!(stored.last_updated, 1_000);
    assert_eq!(stored.spec_hash.len(), 64);
    assert!(matches!(stored.source, ToolSource::Federated { ref server_id, .. } if server_id == "a"));
    assert_eq!(m.registry().get_tools_from_source("a").len(), 2);
    let entry = m.cached_catalog("a").unwrap();
    assert_eq!(entry.tool_count, 2);
    assert_eq!(entry.expires_at, 1_000 + 300_000);
    assert_eq!(entry.spec_hash.len(), 64);
}

#[test]
fn sync_passes_over_nameless_descriptions() {
    let mut m = manager(settings(&["a"]));
    let result = doc(r#"{"tools": [{"name": "x"}, {"description": "nameless"}, {"name": "y"}]}"#);
    assert_eq!(m.sync_server_tools("a", FetchOutcome::Fetched(result), 5).unwrap(), 2);
    assert_eq!(m.registry().get_all_tools().len(), 2);
    assert_eq!(m.cached_catalog("a").unwrap().tool_count, 2);
}

#[test]
fn unchanged_catalog_is_synced_once() {
    let mut s = settings(&["a"]);
    s.tool_cache_ttl_seconds = 60;
    let mut m = manager(s);
    let payload = tools_result(&["t1", "t2", "t3", "t4", "t5"]);

    let first = m.sync_server_tools("a", FetchOutcome::Fetched(payload.clone()), 100_000);
    assert_eq!(first.unwrap(), 5);
    let events = m.take_events();
    assert_eq!(events.len(), 5);
    assert!(events.iter().all(|event| matches!(event, RegistryChangeEvent::ToolAdded(_))));
    let stamped = m.registry().get_tool("t1").unwrap().last_updated;
    assert_eq!(m.cached_catalog("a").unwrap().expires_at, 160_000);

    let second = m.sync_server_tools("a", FetchOutcome::Fetched(payload.clone()), 110_000);
    assert_eq!(second.unwrap(), 5);
    assert!(m.take_events().is_empty());
    assert_eq!(m.registry().get_tool("t1").unwrap().last_updated, stamped);
    assert_eq!(m.cached_catalog("a").unwrap().expires_at, 170_000);

    let expired = m.sync_server_tools("a", FetchOutcome::Fetched(payload), 170_000);
    assert_eq!(expired.unwrap(), 5);
    let events = m.take_events();
    assert_eq!(events.len(), 6);
    assert!(matches!(&events[0], RegistryChangeEvent::SourceRemoved(id) if id == "a"));
    assert_eq!(m.registry().get_tool("t1").unwrap().last_updated, 170_000);
}

#[test]
fn changed_catalog_replaces_the_backends_tools() {
    let mut m = manager(settings(&["a", "b"]));
    m.sync_server_tools("a", FetchOutcome::Fetched(tools_result(&["x", "y"])), 10).unwrap();
    m.sync_server_tools("b", FetchOutcome::Fetched(tools_result(&["z"])), 10).unwrap();
    m.take_events();
    let synced = m.sync_server_tools("a", FetchOutcome::Fetched(tools_result(&["y", "w"])), 20);
    assert_eq!(synced.unwrap(), 2);
    assert!(m.registry().get_tool("x").is_none());
    assert!(m.registry().get_tool("w").is_some());
    assert_eq!(m.registry().get_tool("y").unwrap().last_updated, 20);
    assert_eq!(m.registry().get_tool("z").unwrap().last_updated, 10);
    let events = m.take_events();
    assert_eq!(events.len(), 3);
    assert!(matches!(&events[0], RegistryChangeEvent::SourceRemoved(id) if id == "a"));
    assert!(matches!(&events[1], RegistryChangeEvent::ToolAdded(name) if name == "y"));
    assert!(matches!(&events[2], RegistryChangeEvent::ToolAdded(name) if name == "w"));
}

#[test]
fn without_caching_every_sync_replaces() {
    let mut s = settings(&["a"]);
    s.tool_cache_ttl_seconds = 0;
    let mut m = manager(s);
    let payload = tools_result(&["x"]);
    m.sync_server_tools("a", FetchOutcome::Fetched(payload.clone()), 10).unwrap();
    assert!(m.cached_catalog("a").is_none());
    m.take_events();
    assert_eq!(m.sync_server_tools("a", FetchOutcome::Fetched(payload), 11).unwrap(), 1);
    assert_eq!(m.take_events().len(), 2);
    assert_eq!(m.registry().get_tool("x").unwrap().last_updated, 11);
}

#[test]
fn sync_failures_are_told_apart() {
    let mut m = manager(settings(&["a"]));
    assert_eq!(kind_of(m.sync_server_tools("a", FetchOutcome::Empty, 1)), ErrorKind::NoToolsData);
    assert_eq!(
        kind_of(m.sync_server_tools("a", FetchOutcome::Fetched(doc("{}")), 1)),
        ErrorKind::InvalidToolsFormat
    );
    assert_eq!(
        kind_of(m.sync_server_tools("a", FetchOutcome::Fetched(doc(r#"{"tools": {}}"#)), 1)),
        ErrorKind::InvalidToolsFormat
    );
    assert!(m.circuit_state("a").is_none());
    assert_eq!(m.get_metrics().federation_errors, 0);

    assert_eq!(kind_of(m.sync_server_tools("a", FetchOutcome::NotConnected, 2)), ErrorKind::NotConnected);
    let transport = m
        .sync_server_tools("a", FetchOutcome::Transport("socket closed".to_string()), 3)
        .unwrap_err();
    assert_eq!(transport.kind, ErrorKind::Transport);
    assert_eq!(transport.detail, "socket closed");
    assert_eq!(m.circuit_state("a").unwrap().failure_count, 2);
    let downstream = m
        .sync_server_tools_with("a", FetchOutcome::Downstream("no such method".to_string()), 4, 0)
        .unwrap_err();
    assert_eq!(downstream.kind, ErrorKind::Downstream);
    assert_eq!(downstream.detail, "no such method");
    let circuit = m.circuit_state("a").unwrap();
    assert_eq!(circuit.failure_count, 3);
    assert_eq!(circuit.open_until, Some(4 + 250));
    assert_eq!(m.get_metrics().federation_errors, 3);
    assert_eq!(m.get_metrics().open_circuits, 1);
    assert_eq!(m.get_metrics().server_failures.len(), 1);
    assert_eq!(m.get_metrics().server_failures[0].server_id, "a");
    assert_eq!(m.get_metrics().server_failures[0].failures, 3);
}

#[test]
fn successful_sync_closes_the_circuit() {
    let mut m = manager(settings(&["a"]));
    assert_eq!(m.record_failure_with("a", 1, 0), None);
    assert_eq!(m.record_failure_with("a", 2, 0), None);
    assert_eq!(m.circuit_state("a").unwrap().failure_count, 2);
    m.sync_server_tools("a", FetchOutcome::Fetched(tools_result(&["x"])), 3).unwrap();
    let circuit = m.circuit_state("a").unwrap();
    assert_eq!(circuit.failure_count, 0);
    assert_eq!(circuit.last_failure, None);
    assert_eq!(circuit.open_until, None);
}

#[test]
fn open_circuit_fails_the_call_before_any_network_work() {
    let mut s = settings(&["B"]);
    s.circuit_breaker_threshold = 3;
    let mut m = manager(s);
    m.sync_server_tools("B", FetchOutcome::Fetched(tools_result(&["b_tool"])), 0).unwrap();

    let fail = || CallOutcome::Transport("refused".to_string());
    assert!(matches!(m.after_call_with("B", 0, fail(), 1_000, 0, 0), ForwardStep::Retry { .. }));
    assert!(matches!(m.after_call_with("B", 1, fail(), 1_001, 0, 0), ForwardStep::Retry { .. }));
    match m.after_call_with("B", 2, fail(), 1_002, 30, 0) {
        ForwardStep::Failed(error) => {
            assert_eq!(error.kind, ErrorKind::CircuitOpened { cooldown_ms: 280 });
            assert_eq!(error.detail, "refused");
        }
        other => panic!("the third failure opens the circuit, got {:?}", other),
    }
    assert_eq!(m.circuit_state("B").unwrap().open_until, Some(1_282));
    assert_eq!(m.get_metrics().open_circuits, 1);

    let routed = m
        .route_tool_call("b_tool", doc(r#"{"query": "q"}"#), ExecutionMode::Execute, 1_003)
        .unwrap();
    let server_id = match routed.dispatch {
        Some(Dispatch::Downstream { server_id, tool_name }) => {
            assert_eq!(tool_name, "b_tool");
            server_id
        }
        other => panic!("a federated tool is forwarded, got {:?}", other),
    };
    let forwarded_before = m.get_metrics().tool_calls_forwarded;
    let blocked = m.begin_forward(&server_id, 1_003).unwrap_err();
    assert_eq!(blocked.kind, ErrorKind::CircuitOpen { retry_after_ms: 279 });
    assert_eq!(m.get_metrics().circuit_open_skips, 1);
    assert_eq!(m.get_metrics().tool_calls_forwarded, forwarded_before);
    assert_eq!(m.circuit_state("B").unwrap().failure_count, 3);

    assert!(m.begin_forward("B", 1_282).is_ok());
    assert_eq!(m.circuit_state("B").unwrap().open_until, None);
    assert_eq!(m.circuit_state("B").unwrap().failure_count, 0);
    assert_eq!(m.get_metrics().circuit_open_skips, 1);
}

#[test]
fn forwarding_to_an_unknown_backend_is_refused() {
    let mut m = manager(settings(&["a"]));
    let error = m.begin_forward("nobody", 5).unwrap_err();
    assert_eq!(error.kind, ErrorKind::UnknownBackend);
    assert_eq!(m.get_metrics().circuit_open_skips, 0);
    assert!(m.begin_forward("a", 5).is_ok());
}

#[test]
fn third_attempt_succeeds_after_two_transport_errors() {
    let mut s = settings(&["a"]);
    s.max_retries = 2;
    let mut m = manager(s);
    let fail = || CallOutcome::Transport("timed out".to_string());

    assert!(m.begin_forward("a", 100).is_ok());
    match m.after_call_with("a", 0, fail(), 100, 0, 7) {
        ForwardStep::Retry { attempt, delay_ms } => {
            assert_eq!(attempt, 1);
            assert_eq!(delay_ms, 507);
        }
        other => panic!("first failure is retried, got {:?}", other),
    }
    match m.after_call_with("a", 1, fail(), 700, 0, 0) {
        ForwardStep::Retry { attempt, delay_ms } => {
            assert_eq!(attempt, 2);
            assert_eq!(delay_ms, 1_000);
        }
        other => panic!("second failure is retried, got {:?}", other),
    }
    assert_eq!(m.circuit_state("a").unwrap().failure_count, 2);
    let answer = doc(r#"{"content": [1, 2, 3]}"#);
    match m.after_call_with("a", 2, CallOutcome::Completed(Some(answer.clone())), 1_800, 0, 0) {
        ForwardStep::Done(result) => assert_eq!(result, answer),
        other => panic!("the third attempt succeeds, got {:?}", other),
    }
    assert_eq!(m.circuit_state("a").unwrap().failure_count, 0);
    assert_eq!(m.get_metrics().tool_calls_forwarded, 1);
    assert_eq!(m.get_metrics().federation_errors, 2);
    assert_eq!(m.get_metrics().open_circuits, 0);
}

#[test]
fn retries_are_bounded() {
    let mut s = settings(&["a"]);
    s.max_retries = 2;
    s.circuit_breaker_threshold = 10;
    let mut m = manager(s);
    let fail = || CallOutcome::Downstream("boom".to_string());
    assert!(matches!(m.after_call_with("a", 0, fail(), 1, 0, 0), ForwardStep::Retry { attempt: 1, .. }));
    assert!(matches!(m.after_call_with("a", 1, fail(), 2, 0, 0), ForwardStep::Retry { attempt: 2, .. }));
    match m.after_call_with("a", 2, fail(), 3, 0, 0) {
        ForwardStep::Failed(error) => {
            assert_eq!(error.kind, ErrorKind::Downstream);
            assert_eq!(error.detail, "boom");
        }
        other => panic!("attempts are used up, got {:?}", other),
    }
    let mut zero = settings(&["a"]);
    zero.max_retries = 0;
    zero.circuit_breaker_threshold = 10;
    let mut m = manager(zero);
    assert!(matches!(m.after_call_with("a", 0, fail(), 1, 0, 0), ForwardStep::Retry { attempt: 1, .. }));
    assert!(matches!(m.after_call_with("a", 1, fail(), 2, 0, 0), ForwardStep::Failed(_)));
}

#[test]
fn drawn_retry_delay_is_in_range() {
    let mut s = settings(&["a"]);
    s.circuit_breaker_threshold = 10;
    let mut m = manager(s);
    match m.after_call("a", 0, CallOutcome::Transport("x".to_string()), 1) {
        ForwardStep::Retry { attempt, delay_ms } => {
            assert_eq!(attempt, 1);
            assert!(delay_ms >= 500 && delay_ms <= 750);
        }
        other => panic!("first failure is retried, got {:?}", other),
    }
}

#[test]
fn a_disconnected_backend_is_given_up_at_once() {
    let mut m = manager(settings(&["a"]));
    match m.after_call_with("a", 0, CallOutcome::NotConnected, 1, 0, 0) {
        ForwardStep::Failed(error) => assert_eq!(error.kind, ErrorKind::NotConnected),
        other => panic!("not connected fails, got {:?}", other),
    }
    assert_eq!(m.circuit_state("a").unwrap().failure_count, 1);
}

#[test]
fn a_bare_success_gets_a_result() {
    let mut m = manager(settings(&["a"]));
    match m.after_call_with("a", 0, CallOutcome::Completed(None), 1, 0, 0) {
        ForwardStep::Done(result) => assert_eq!(result, doc(r#"{"status": "success"}"#)),
        other => panic!("a success is done, got {:?}", other),
    }
    assert_eq!(m.get_metrics().tool_calls_forwarded, 1);
    assert!(m.circuit_state("a").is_none());
}

#[test]
fn a_round_over_three_backends_tolerates_partial_failure() {
    let mut s = settings(&["open", "healthy", "unreachable"]);
    s.circuit_breaker_threshold = 1;
    let mut m = manager(s);
    assert_eq!(m.record_failure_with("open", 500, 0), Some(250));
    let errors_before = m.get_metrics().federation_errors;
    let skips_before = m.get_metrics().circuit_open_skips;

    let now = 600;
    let mut results: Vec<Result<usize, FederationError>> = Vec::new();
    for id in ["open", "healthy", "unreachable"] {
        let outcome = match id {
            "healthy" => FetchOutcome::Fetched(tools_result(&["h1", "h2", "h3"])),
            _ => FetchOutcome::NotConnected,
        };
        results.push(m.sync_server_tools(id, outcome, now));
    }
    assert_eq!(results[0].as_ref().ok(), Some(&0));
    assert_eq!(results[1].as_ref().ok(), Some(&3));
    assert_eq!(results[2].as_ref().unwrap_err().kind, ErrorKind::NotConnected);

    let report = m.sync_all_servers(&results, 1_700_000_000_000, 42);
    assert_eq!(report.total_tools, 3);
    assert_eq!(report.errors, 1);
    assert_eq!(report.unrecorded_errors, 0);
    assert_eq!(m.get_metrics().federation_errors, errors_before + 1);
    assert_eq!(m.get_metrics().circuit_open_skips, skips_before + 1);
    assert_eq!(m.get_metrics().last_sync, Some(1_700_000_000_000));
    assert_eq!(m.get_metrics().sync_duration_ms, 42);
    assert_eq!(m.registry().get_all_tools().len(), 3);
    assert_eq!(m.get_metrics().open_circuits, 2);
}

#[test]
fn a_round_counts_failures_no_circuit_has_counted() {
    let mut m = manager(settings(&["a", "b"]));
    let results = vec![
        m.sync_server_tools("a", FetchOutcome::Empty, 1),
        m.sync_server_tools("b", FetchOutcome::Fetched(doc("[]")), 1),
        Ok(4),
        Ok(usize::MAX),
    ];
    let report = m.sync_all_servers(&results, 9, 1);
    assert_eq!(report.errors, 2);
    assert_eq!(report.unrecorded_errors, 2);
    assert_eq!(report.total_tools, u64::MAX);
    assert_eq!(m.get_metrics().federation_errors, 2);
    assert!(m.circuit_state("a").is_none());
}

#[test]
fn connecting_needs_one_backend() {
    let mut m = manager(settings(&["a", "b", "c"]));
    assert!(m.connect_all(&vec![false, true, true]).is_ok());
    assert_eq!(m.get_metrics().active_connections, 2);
    assert_eq!(m.get_metrics().total_servers, 3);
    let error = m.connect_all(&vec![false, false, false]).unwrap_err();
    assert_eq!(error.kind, ErrorKind::NoneConnected);
    assert_eq!(m.get_metrics().active_connections, 0);
    assert!(m.connect_all(&Vec::new()).is_err());
    assert_eq!(m.get_metrics().total_servers, 0);
}

#[test]
fn routing_follows_the_mode() {
    let mut registry = ToolRegistry::new();
    registry.register_tool(
        ToolSpec {
            name: "here".to_string(),
            description: String::new(),
            input_schema: doc("{}"),
            output_schema: None,
            source: ToolSource::Local,
            spec_version: "1.0.0".to_string(),
            spec_hash: String::new(),
            last_updated: 0,
            metadata: doc("{}"),
        },
        1,
    );
    let mut m = McpFederationManager::new(settings(&["a"]), registry);
    m.sync_server_tools("a", FetchOutcome::Fetched(tools_result(&["there"])), 2).unwrap();
    let args = doc(r#"{"query": "q"}"#);

    let planned = m
        .route_tool_call_with("there", args.clone(), ExecutionMode::Plan, "plan-1".to_string(), 77)
        .unwrap();
    assert!(planned.dispatch.is_none());
    let plan = planned.plan.unwrap();
    assert_eq!(plan.plan_id, "plan-1");
    assert_eq!(plan.tool_name, "there");
    assert_eq!(plan.arguments, args);
    assert_eq!(plan.target_server, "a");
    assert_eq!(plan.created_at, 77);
    assert!(plan.dependencies.is_empty());
    assert_eq!(plan.spec_ref.as_deref(), Some("mcp://catalog/tools/there"));

    let executed = m.route_tool_call("here", args.clone(), ExecutionMode::Execute, 78).unwrap();
    assert!(executed.plan.is_none());
    assert!(matches!(executed.dispatch, Some(Dispatch::Local { ref tool_name }) if tool_name == "here"));

    let both = m.route_tool_call("here", args.clone(), ExecutionMode::Hybrid, 79).unwrap();
    assert_eq!(both.plan.as_ref().unwrap().target_server, "local");
    assert!(both.dispatch.is_some());
    let again = m.route_tool_call("here", args.clone(), ExecutionMode::Hybrid, 79).unwrap();
    assert!(!both.plan.as_ref().unwrap().plan_id.is_empty());
    assert_ne!(both.plan.unwrap().plan_id, again.plan.unwrap().plan_id);

    let missing = m.route_tool_call("nowhere", args, ExecutionMode::Plan, 80).unwrap_err();
    assert_eq!(missing.kind, ErrorKind::ToolNotFound);
}

#[test]
fn a_plan_names_its_target() {
    let tool = McpFederationManager::parse_tool_spec(&doc(r#"{"name": "t"}"#), "srv", 0).unwrap();
    let plan = generate_execution_plan(&tool, doc("[1]"), "id".to_string(), 5);
    assert_eq!(plan.target_server, "srv");
    assert_eq!(plan.spec_ref.as_deref(), Some("mcp://catalog/tools/t"));
    assert_eq!(plan.arguments, doc("[1]"));
}

#[test]
fn server_status_shows_config_and_tool_count() {
    let mut s = settings(&["a", "b"]);
    s.downstream_servers[1].enabled = false;
    let mut m = manager(s);
    m.sync_server_tools("a", FetchOutcome::Fetched(tools_result(&["x", "y"])), 2).unwrap();
    let a = m.server_status("a", true).unwrap();
    assert_eq!(a.id, "a");
    assert_eq!(a.name, "Server a");
    assert_eq!(a.transport, "websocket");
    assert!(a.connected);
    assert!(a.enabled);
    assert_eq!(a.tool_count, 2);
    let b = m.server_status("b", false).unwrap();
    assert!(!b.connected);
    assert!(!b.enabled);
    assert_eq!(b.tool_count, 0);
    assert!(m.server_status("c", true).is_none());
}

#[test]
fn shutdown_forgets_circuits_and_cache() {
    let mut m = manager(settings(&["a"]));
    m.connect_all(&vec![true]).unwrap();
    m.sync_server_tools("a", FetchOutcome::Fetched(tools_result(&["x"])), 2).unwrap();
    m.record_failure_with("a", 3, 0);
    assert!(m.circuit_state("a").is_some());
    assert!(m.cached_catalog("a").is_some());
    m.shutdown();
    assert!(m.circuit_state("a").is_none());
    assert!(m.cached_catalog("a").is_none());
    assert_eq!(m.get_metrics().active_connections, 0);
    assert_eq!(m.get_metrics().federation_errors, 1);
    assert_eq!(m.registry().get_all_tools().len(), 1);
    assert_eq!(m.count_open_circuits(4), 0);
}

#[test]
fn open_circuits_are_counted_anew() {
    let mut s = settings(&["a", "b"]);
    s.circuit_breaker_threshold = 1;
    let mut m = manager(s);
    assert_eq!(m.record_failure_with("a", 100, 0), Some(250));
    assert_eq!(m.record_failure_with("b", 200, 0), Some(250));
    assert_eq!(m.get_metrics().open_circuits, 2);
    assert_eq!(m.count_open_circuits(349), 2);
    assert_eq!(m.count_open_circuits(350), 1);
    assert_eq!(m.count_open_circuits(450), 0);
    m.record_success("a", 210);
    assert_eq!(m.get_metrics().open_circuits, 1);
    assert_eq!(m.get_metrics().server_failures.len(), 2);
}

#[test]
fn times_are_held_within_the_clock() {
    let mut s = settings(&["a"]);
    s.circuit_breaker_threshold = 1;
    let mut m = manager(s);
    assert_eq!(m.record_failure_with("a", u64::MAX - 100, 0), Some(250));
    assert_eq!(m.circuit_state("a").unwrap().open_until, Some(u64::MAX));
    assert!(m.gate("a", u64::MAX - 1));
    assert!(!m.gate("a", u64::MAX));
    m.sync_server_tools("a", FetchOutcome::Fetched(tools_result(&["x"])), u64::MAX - 5).unwrap();
    assert_eq!(m.cached_catalog("a").unwrap().expires_at, u64::MAX);
    let mut long = settings(&["a"]);
    long.tool_cache_ttl_seconds = u64::MAX;
    let mut m = manager(long);
    m.sync_server_tools("a", FetchOutcome::Fetched(tools_result(&["x"])), 7).unwrap();
    assert_eq!(m.cached_catalog("a").unwrap().expires_at, u64::MAX);
}

#[test]
fn a_blocked_backend_is_skipped_and_counted() {
    let mut s = settings(&["a"]);
    s.circuit_breaker_threshold = 1;
    let mut m = manager(s);
    m.sync_server_tools("a", FetchOutcome::Fetched(tools_result(&["x"])), 1).unwrap();
    m.take_events();
    assert_eq!(m.record_failure_with("a", 1_000, 0), Some(250));
    let circuit = m.circuit_state("a").unwrap();

    for outcome in [
        FetchOutcome::NotConnected,
        FetchOutcome::Transport("down".to_string()),
        FetchOutcome::Fetched(tools_result(&["y", "z"])),
    ] {
        assert_eq!(m.sync_server_tools("a", outcome, 1_100).unwrap(), 0);
    }
    assert_eq!(m.get_metrics().circuit_open_skips, 3);
    assert_eq!(m.get_metrics().federation_errors, 1);
    assert!(m.take_events().is_empty());
    assert!(m.registry().get_tool("x").is_some());
    assert!(m.registry().get_tool("y").is_none());
    let after = m.circuit_state("a").unwrap();
    assert_eq!(after.failure_count, circuit.failure_count);
    assert_eq!(after.open_until, circuit.open_until);
    assert_eq!(after.last_failure, circuit.last_failure);

    assert_eq!(m.begin_sync("a", 1_200), SyncStart::Skip { tools: 0 });
    assert_eq!(m.get_metrics().circuit_open_skips, 4);
    assert_eq!(m.begin_sync("a", 1_250), SyncStart::Fetch);
    assert_eq!(m.get_metrics().circuit_open_skips, 4);
    assert_eq!(m.begin_sync("never-failed", 1_250), SyncStart::Fetch);
    assert_eq!(m.sync_server_tools("a", FetchOutcome::Fetched(tools_result(&["y"])), 1_260).unwrap(), 1);
}

#[test]
fn a_drawn_failure_is_recorded() {
    let mut s = settings(&["a"]);
    s.circuit_breaker_threshold = 2;
    let mut m = manager(s);
    assert_eq!(m.record_failure("a", 10), None);
    let cooldown = m.record_failure("a", 20).expect("second failure opens");
    assert!(cooldown >= 250 && cooldown <= 500);
    assert_eq!(m.circuit_state("a").unwrap().open_until, Some(20 + cooldown));
    assert_eq!(m.get_metrics().federation_errors, 2);
    assert_eq!(m.get_metrics().open_circuits, 1);
}

#[test]
fn the_manager_validates_through_its_registry() {
    let mut m = manager(settings(&["a"]));
    m.sync_server_tools("a", FetchOutcome::Fetched(tools_result(&["x"])), 2).unwrap();
    assert!(m.validate_tool_arguments("x", &doc(r#"{"query": "q"}"#)).is_ok());
    assert!(m.validate_tool_arguments("x", &doc("{}")).is_err());
    assert_eq!(m.registry().get_metrics().schema_validation_errors, 1);
    assert!(m.validate_tool_arguments("y", &doc("{}")).is_err());
    assert_eq!(m.registry().get_metrics().schema_validation_errors, 1);
}

#[test]
fn start_up_lists_backends_and_interval() {
    let mut s = settings(&["a", "b"]);
    s.downstream_servers[0].enabled = false;
    s.catalog_refresh_interval = 45;
    let m = manager(s);
    let (backends, interval) = m.initialize();
    assert_eq!(backends.len(), 1);
    assert_eq!(backends[0].id, "b");
    assert_eq!(interval, Some(45));
}

#[test]
fn active_servers_follow_the_links() {
    let mut m = manager(settings(&["a", "b"]));
    m.sync_server_tools("b", FetchOutcome::Fetched(tools_result(&["x"])), 2).unwrap();
    let links = vec![
        Link { server_id: "b".to_string(), connected: true },
        Link { server_id: "stranger".to_string(), connected: true },
        Link { server_id: "a".to_string(), connected: false },
    ];
    let shown = m.get_active_servers(&links);
    assert_eq!(shown.len(), 2);
    assert_eq!(shown[0].id, "b");
    assert!(shown[0].connected);
    assert_eq!(shown[0].tool_count, 1);
    assert_eq!(shown[1].id, "a");
    assert!(!shown[1].connected);
    assert_eq!(shown[1].tool_count, 0);
    assert_eq!(shown[1].name, "Server a");
}

#[test]
fn failures_fall_into_families() {
    let class = |kind: ErrorKind| FederationError::plain(kind).class();
    assert_eq!(class(ErrorKind::NotConnected), ErrorClass::Connection);
    assert_eq!(class(ErrorKind::NoneConnected), ErrorClass::Connection);
    assert_eq!(class(ErrorKind::Transport), ErrorClass::Connection);
    assert_eq!(class(ErrorKind::Downstream), ErrorClass::Protocol);
    assert_eq!(class(ErrorKind::MissingToolName), ErrorClass::Protocol);
    assert_eq!(class(ErrorKind::NoToolsData), ErrorClass::Protocol);
    assert_eq!(class(ErrorKind::InvalidToolsFormat), ErrorClass::Protocol);
    assert_eq!(class(ErrorKind::Unserializable), ErrorClass::Protocol);
    assert_eq!(class(ErrorKind::Unfinished), ErrorClass::Connection);
    assert_eq!(class(ErrorKind::CircuitOpen { retry_after_ms: 1 }), ErrorClass::CircuitOpen);
    assert_eq!(class(ErrorKind::CircuitOpened { cooldown_ms: 1 }), ErrorClass::CircuitOpen);
    assert_eq!(class(ErrorKind::ToolNotFound), ErrorClass::NotFound);
    assert_eq!(class(ErrorKind::UnknownBackend), ErrorClass::NotFound);
}

#[test]
fn an_unfinished_sync_is_counted_by_the_round() {
    let mut m = manager(settings(&["a"]));
    let results = vec![Err(FederationError {
        kind: ErrorKind::Unfinished,
        detail: "task panicked".to_string(),
    })];
    let report = m.sync_all_servers(&results, 1, 1);
    assert_eq!(report.errors, 1);
    assert_eq!(report.unrecorded_errors, 1);
    assert_eq!(m.get_metrics().federation_errors, 1);
}
