use casial_federation::client::{
    call_tool_request, initialize_request, list_resources_request, list_tools_request,
    read_resource_request, Completion, ConnectPoll, ConnectionState, McpClient, CONNECT_POLLS,
    CONNECT_POLL_MS, SWEEP_INTERVAL_MS,
};
use casial_federation::config::DownstreamMcpServer;
use serde_json::Value;

fn doc(text: &str) -> Value {
    serde_json::from_str(text).expect("test document")
}

fn config(timeout_ms: u64) -> DownstreamMcpServer {
    DownstreamMcpServer {
        id: "test".to_string(),
        name: "Test Server".to_string(),
        url: "ws://localhost:8001/ws".to_string(),
        connection_type: "websocket".to_string(),
        enabled: true,
        timeout_ms,
        priority: 1,
        auth: None,
    }
}

#[test]
fn test_client_creation() {
    let config = DownstreamMcpServer {
        id: "test".to_string(),
        name: "Test Server".to_string(),
        url: "ws://localhost:8001/ws".to_string(),
        connection_type: "websocket".to_string(),
        enabled: true,
        timeout_ms: 5000,
        priority: 1,
        auth: None,
    };

    let client = McpClient::new(config);
    assert!(!client.is_connected());
}

#[test]
fn test_health_tracking() {
    let config = DownstreamMcpServer {
        id: "test".to_string(),
        name: "Test Server".to_string(),
        url: "ws://localhost:8001/ws".to_string(),
        connection_type: "websocket".to_string(),
        enabled: true,
        timeout_ms: 5000,
        priority: 1,
        auth: None,
    };

    let client = McpClient::new(config);
    let health = client.get_health();

    assert!(matches!(health.state, ConnectionState::Disconnected));
    assert_eq!(health.message_count, 0);
    assert_eq!(health.error_count, 0);
}

#[test]
fn connecting_is_idempotent() {
    let mut client = McpClient::new(config(5000));
    assert!(!client.connect());
    assert!(matches!(client.get_health().state, ConnectionState::Connecting));
    assert!(!client.is_connected());
    client.connected(1_234);
    assert!(client.is_connected());
    assert_eq!(client.get_health().connected_at, Some(1_234));
    assert!(client.connect());
    assert!(client.is_connected());
    assert_eq!(client.get_health().connected_at, Some(1_234));
    assert_eq!(CONNECT_POLLS as u64 * CONNECT_POLL_MS, 3_000);
}

#[test]
fn a_response_settles_its_request_once() {
    let mut client = McpClient::new(config(5000));
    client.connected(0);
    assert!(client.track("r1".to_string(), 100).is_none());
    assert!(client.track("r2".to_string(), 110).is_none());
    client.sent();
    client.sent();
    assert_eq!(client.pending_count(), 2);
    assert_eq!(client.get_health().message_count, 2);

    let settled = client.response("r2", 150).unwrap();
    assert_eq!(settled.id, "r2");
    assert_eq!(settled.how, Completion::Answered);
    assert_eq!(client.get_health().latency_ms, 40);
    assert_eq!(client.pending_count(), 1);
    assert_eq!(client.get_health().error_count, 0);

    assert!(client.response("r2", 160).is_none());
    assert_eq!(client.get_health().error_count, 1);
    assert_eq!(client.get_health().latency_ms, 40);
    assert!(client.response("never-sent", 160).is_none());
    assert_eq!(client.get_health().error_count, 2);
    assert_eq!(client.pending_count(), 1);

    assert!(client.sweep(200).is_empty());
    let closed = client.disconnect();
    assert_eq!(closed.len(), 1);
    assert_eq!(closed[0].id, "r1");
    assert_eq!(closed[0].how, Completion::ConnectionClosed);
}

#[test]
fn a_silent_backend_times_the_request_out() {
    let mut client = McpClient::new(config(50));
    client.connected(0);
    client.track("slow".to_string(), 1_000);
    assert!(client.sweep(1_000).is_empty());
    assert!(client.sweep(1_049).is_empty());
    assert_eq!(client.pending_count(), 1);
    let expired = client.sweep(1_049 + SWEEP_INTERVAL_MS);
    assert_eq!(expired.len(), 1);
    assert_eq!(expired[0].id, "slow");
    assert_eq!(expired[0].how, Completion::TimedOut);
    assert_eq!(client.get_health().error_count, 1);
    assert_eq!(client.pending_count(), 0);
    assert!(client.sweep(9_999).is_empty());
    assert!(client.response("slow", 9_999).is_none());
    assert!(client.disconnect().is_empty());
}

#[test]
fn a_sweep_settles_exactly_the_overdue_requests() {
    let mut client = McpClient::new(config(100));
    client.track("old1".to_string(), 0);
    client.track("fresh".to_string(), 150);
    client.track("old2".to_string(), 10);
    client.track("future".to_string(), 500);
    let mut expired: Vec<String> = client.sweep(160).into_iter().map(|s| s.id).collect();
    expired.sort();
    assert_eq!(expired, vec!["old1".to_string(), "old2".to_string()]);
    assert_eq!(client.get_health().error_count, 2);
    assert_eq!(client.pending_count(), 2);
    assert!(client.response("fresh", 170).is_some());
    assert_eq!(client.get_health().latency_ms, 20);
    assert!(client.response("future", 170).is_some());
    assert_eq!(client.get_health().latency_ms, 0);
}

#[test]
fn the_end_of_the_connection_settles_everything_left() {
    let mut client = McpClient::new(config(5000));
    client.connected(0);
    for id in ["a", "b", "c"] {
        client.track(id.to_string(), 1);
    }
    client.response("b", 2);
    let mut closed: Vec<String> = client
        .disconnect()
        .into_iter()
        .map(|settled| {
            assert_eq!(settled.how, Completion::ConnectionClosed);
            settled.id
        })
        .collect();
    closed.sort();
    assert_eq!(closed, vec!["a".to_string(), "c".to_string()]);
    assert!(!client.is_connected());
    assert!(matches!(client.get_health().state, ConnectionState::Disconnected));
    assert_eq!(client.pending_count(), 0);
    assert!(client.disconnect().is_empty());
    assert!(client.response("a", 3).is_none());
}

#[test]
fn a_reused_id_displaces_the_earlier_request() {
    let mut client = McpClient::new(config(5000));
    assert!(client.track("dup".to_string(), 10).is_none());
    let displaced = client.track("dup".to_string(), 20).unwrap();
    assert_eq!(displaced.id, "dup");
    assert_eq!(displaced.how, Completion::Displaced);
    assert_eq!(client.pending_count(), 1);
    client.response("dup", 50);
    assert_eq!(client.get_health().latency_ms, 30);
}

#[test]
fn faults_and_heartbeats_are_recorded() {
    let mut client = McpClient::new(config(5000));
    client.faulted();
    client.faulted();
    client.heartbeat(30_000);
    assert_eq!(client.get_health().error_count, 2);
    assert_eq!(client.get_health().last_heartbeat, Some(30_000));
    assert_eq!(client.server().id, "test");
}

#[test]
fn requests_of_the_wire_protocol() {
    let init = initialize_request("1".to_string());
    assert_eq!(init.jsonrpc, "2.0");
    assert_eq!(init.id, "1");
    assert_eq!(init.method, "initialize");
    assert_eq!(init.params["protocolVersion"], "2024-11-05");
    assert_eq!(init.params["capabilities"], doc(r#"{"tools": {}, "resources": {}}"#));
    assert_eq!(init.params["clientInfo"]["name"], "context-casial-xpress-proxy");

    let list = list_tools_request("2".to_string());
    assert_eq!(list.method, "tools/list");
    assert_eq!(list.params, doc("{}"));

    let call = call_tool_request("3".to_string(), "search", doc(r#"{"query": "q"}"#));
    assert_eq!(call.jsonrpc, "2.0");
    assert_eq!(call.id, "3");
    assert_eq!(call.method, "tools/call");
    assert_eq!(call.params, doc(r#"{"name": "search", "arguments": {"query": "q"}}"#));

    let resources = list_resources_request("4".to_string());
    assert_eq!(resources.method, "resources/list");
    assert_eq!(resources.params, doc("{}"));

    let read = read_resource_request("5".to_string(), "mcp://catalog/tools");
    assert_eq!(read.method, "resources/read");
    assert_eq!(read.params, doc(r#"{"uri": "mcp://catalog/tools"}"#));
}

#[test]
fn waiting_for_the_connection_is_bounded() {
    let mut client = McpClient::new(config(5000));
    client.connect();
    assert_eq!(client.poll_connect(0), ConnectPoll::Wait { delay_ms: 100 });
    assert_eq!(client.poll_connect(29), ConnectPoll::Wait { delay_ms: 100 });
    assert_eq!(client.poll_connect(30), ConnectPoll::GiveUp);
    assert_eq!(client.poll_connect(u32::MAX), ConnectPoll::GiveUp);
    client.connected(5);
    assert_eq!(client.poll_connect(0), ConnectPoll::Up);
    assert_eq!(client.poll_connect(30), ConnectPoll::Up);
}

#[test]
fn a_client_draws_fresh_ids_for_its_requests() {
    let client = McpClient::new(config(5000));
    let first = client.list_tools();
    let second = client.list_tools();
    assert_eq!(first.method, "tools/list");
    assert_eq!(first.jsonrpc, "2.0");
    assert!(!first.id.is_empty());
    assert_ne!(first.id, second.id);
    assert_eq!(client.initialize().method, "initialize");
    let call = client.call_tool("t", doc("[1]"));
    assert_eq!(call.method, "tools/call");
    assert_eq!(call.params, doc(r#"{"name": "t", "arguments": [1]}"#));
    assert_eq!(client.list_resources().method, "resources/list");
    assert_eq!(client.read_resource("u").params, doc(r#"{"uri": "u"}"#));
}

#[test]
fn a_failed_connection_is_in_error_until_it_is_torn_down() {
    let mut client = McpClient::new(config(5000));
    client.connect();
    client.track("r".to_string(), 1);
    client.failed("refused".to_string());
    assert!(matches!(&client.get_health().state, ConnectionState::Error(reason) if reason == "refused"));
    assert!(!client.is_connected());
    assert_eq!(client.poll_connect(3), ConnectPoll::Wait { delay_ms: 100 });
    let closed = client.disconnect();
    assert_eq!(closed.len(), 1);
    assert!(matches!(client.get_health().state, ConnectionState::Disconnected));
}

#[test]
fn a_request_is_swept_at_the_end_of_its_timeout() {
    let mut client = McpClient::new(config(50));
    client.track("exact".to_string(), 1_000);
    assert!(client.sweep(1_049).is_empty());
    let expired = client.sweep(1_050);
    assert_eq!(expired.len(), 1);
    assert_eq!(expired[0].how, Completion::TimedOut);
    let mut instant = McpClient::new(config(0));
    instant.track("now".to_string(), 5);
    assert_eq!(instant.sweep(5).len(), 1);
}
