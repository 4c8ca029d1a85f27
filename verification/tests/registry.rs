use casial_federation::registry::{
    clone_tool, compute_tool_hash, dead_listeners, source_is, RegistryChangeEvent, ToolRegistry,
    ToolSource, ToolSpec,
};
use casial_federation::json::{is_checkable, is_reference_free, SCHEMA_DEPTH_LIMIT};
use serde_json::Value;

fn doc(text: &str) -> Value {
    serde_json::from_str(text).expect("test document")
}

fn query_schema() -> Value {
    doc(r#"{"type": "object", "properties": {"query": {"type": "string"}}, "required": ["query"]}"#)
}

fn tool(name: &str, source: ToolSource) -> ToolSpec {
    ToolSpec {
        name: name.to_string(),
        description: "A test tool".to_string(),
        input_schema: query_schema(),
        output_schema: None,
        source,
        spec_version: "1.0.0".to_string(),
        spec_hash: String::new(),
        last_updated: 0,
        metadata: doc("{}"),
    }
}

fn federated(id: &str) -> ToolSource {
    ToolSource::Federated { server_id: id.to_string(), server_url: format!("server://{}", id) }
}

fn names(tools: &[ToolSpec]) -> Vec<String> {
    let mut names: Vec<String> = tools.iter().map(|t| t.name.clone()).collect();
    names.sort();
    names
}

#[test]
fn test_tool_registry_creation() {
    let registry = ToolRegistry::new();
    assert_eq!(registry.get_all_tools().len(), 0);
}

#[test]
fn test_tool_registration() {
    let mut registry = ToolRegistry::new();
    let tool = ToolSpec {
        name: "test_tool".to_string(),
        description: "A test tool".to_string(),
        input_schema: doc(
            r#"{"type": "object", "properties": {"query": {"type": "string"}}, "required": ["query"]}"#,
        ),
        output_schema: None,
        source: ToolSource::Local,
        spec_version: "1.0.0".to_string(),
        spec_hash: String::new(),
        last_updated: 0,
        metadata: doc("{}"),
    };

    registry.register_tool_sync(tool, 1);

    let retrieved = registry.get_tool("test_tool").unwrap();
    assert_eq!(retrieved.name, "test_tool");
    assert!(!retrieved.spec_hash.is_empty());
}

#[test]
fn test_tool_validation() {
    let mut registry = ToolRegistry::new();
    let tool = ToolSpec {
        name: "test_tool".to_string(),
        description: "A test tool".to_string(),
        input_schema: doc(
            r#"{
                "type": "object",
                "properties": {
                    "query": {"type": "string"}
                },
                "required": ["query"]
            }"#,
        ),
        output_schema: None,
        source: ToolSource::Local,
        spec_version: "1.0.0".to_string(),
        spec_hash: String::new(),
        last_updated: 0,
        metadata: doc("{}"),
    };

    registry.register_tool_sync(tool, 1);

    let valid_args = doc(r#"{"query": "test query"}"#);
    assert!(registry.validate_tool_arguments("test_tool", &valid_args).is_ok());

    let invalid_args = doc(r#"{"other_field": "value"}"#);
    assert!(registry.validate_tool_arguments("test_tool", &invalid_args).is_err());
}

#[test]
fn missing_required_field_is_named_and_counted() {
    let mut registry = ToolRegistry::new();
    registry.register_tool(tool("search", ToolSource::Local), 5);
    let errors = registry.validate_tool_arguments("search", &doc("{}")).unwrap_err();
    assert!(!errors.is_empty());
    assert!(errors.iter().any(|message| message.contains("query")));
    assert_eq!(registry.get_metrics().schema_validation_errors, 1);
    assert!(registry.validate_tool_arguments("search", &doc(r#"{"query":"x"}"#)).is_ok());
    assert_eq!(registry.get_metrics().schema_validation_errors, 1);
    let wrong_type = registry.validate_tool_arguments("search", &doc(r#"{"query":7}"#));
    assert!(wrong_type.is_err());
    assert_eq!(registry.get_metrics().schema_validation_errors, 2);
}

#[test]
fn validating_an_unknown_tool_says_so() {
    let mut registry = ToolRegistry::new();
    let errors = registry.validate_tool_arguments("ghost", &doc("{}")).unwrap_err();
    assert_eq!(errors, vec!["Tool 'ghost' not found in registry".to_string()]);
    assert_eq!(registry.get_metrics().schema_validation_errors, 0);
}

#[test]
fn validating_against_a_broken_schema_says_so() {
    let mut registry = ToolRegistry::new();
    let mut broken = tool("broken", ToolSource::Local);
    broken.input_schema = doc(r#"{"type": "no-such-type"}"#);
    registry.register_tool(broken, 5);
    let errors = registry.validate_tool_arguments("broken", &doc("{}")).unwrap_err();
    assert_eq!(errors.len(), 1);
    assert!(errors[0].starts_with("Invalid JSON schema for tool 'broken': "));
    assert_eq!(registry.get_metrics().schema_validation_errors, 0);
}

#[test]
fn content_hash_of_a_known_tool() {
    let hash = compute_tool_hash(&tool("test_tool", ToolSource::Local));
    assert_eq!(hash, "ebfc8b1c488651298d28ac9130c0bf5dafde73468f435f0c410e2ee9f78b9a68");
    let mut with_output = tool("test_tool", ToolSource::Local);
    with_output.output_schema = Some(doc(r#"{"type":"string"}"#));
    assert_eq!(
        compute_tool_hash(&with_output),
        "332f2bb931be275c1c0967a3d7071dcec6a62f7391ca0e4046349ebfb75b13db"
    );
}

#[test]
fn content_hash_depends_on_four_fields_only() {
    let a = tool("same", ToolSource::Local);
    let mut b = tool("same", federated("elsewhere"));
    b.spec_version = "9.9.9".to_string();
    b.spec_hash = "stale".to_string();
    b.last_updated = 77;
    b.metadata = doc(r#"{"k": 1}"#);
    assert_eq!(compute_tool_hash(&a), compute_tool_hash(&b));

    let mut renamed = tool("other", ToolSource::Local);
    assert_ne!(compute_tool_hash(&a), compute_tool_hash(&renamed));
    renamed.name = "same".to_string();
    renamed.description = "Another description".to_string();
    assert_ne!(compute_tool_hash(&a), compute_tool_hash(&renamed));
    let mut reshaped = tool("same", ToolSource::Local);
    reshaped.input_schema = doc(r#"{"type":"object"}"#);
    assert_ne!(compute_tool_hash(&a), compute_tool_hash(&reshaped));
    let mut with_output = tool("same", ToolSource::Local);
    with_output.output_schema = Some(doc("{}"));
    assert_ne!(compute_tool_hash(&a), compute_tool_hash(&with_output));
}

#[test]
fn registering_stamps_hash_and_time() {
    let mut registry = ToolRegistry::new();
    let mut given = tool("stamped", ToolSource::Local);
    given.spec_hash = "given".to_string();
    given.last_updated = 3;
    let expected = compute_tool_hash(&given);
    registry.register_tool(given, 42);
    let stored = registry.get_tool("stamped").unwrap();
    assert_eq!(stored.spec_hash, expected);
    assert_eq!(stored.last_updated, 42);
    assert_eq!(stored.description, "A test tool");

    let mut quiet = tool("quiet", ToolSource::Local);
    quiet.spec_hash = "given".to_string();
    let expected = compute_tool_hash(&quiet);
    registry.register_tool_sync(quiet, 43);
    assert_eq!(registry.get_tool("quiet").unwrap().spec_hash, expected);
    assert_eq!(registry.get_tool("quiet").unwrap().spec_hash.len(), 64);
    assert_eq!(registry.get_tool("quiet").unwrap().last_updated, 43);
    assert!(registry.take_events().len() == 1);
}

#[test]
fn registering_twice_yields_the_same_hash() {
    let mut first = ToolRegistry::new();
    let mut second = ToolRegistry::new();
    first.register_tool(tool("twin", ToolSource::Local), 1);
    second.register_tool(tool("twin", federated("b")), 999);
    assert_eq!(
        first.get_tool("twin").unwrap().spec_hash,
        second.get_tool("twin").unwrap().spec_hash
    );
}

#[test]
fn registering_emits_added_then_updated() {
    let mut registry = ToolRegistry::new();
    registry.register_tool(tool("t", ToolSource::Local), 1);
    registry.register_tool(tool("t", ToolSource::Local), 2);
    let events = registry.take_events();
    assert_eq!(events.len(), 2);
    assert!(matches!(&events[0], RegistryChangeEvent::ToolAdded(name) if name == "t"));
    assert!(matches!(&events[1], RegistryChangeEvent::ToolUpdated(name) if name == "t"));
    assert!(registry.take_events().is_empty());
    assert_eq!(registry.get_all_tools().len(), 1);
    assert_eq!(registry.get_tool("t").unwrap().last_updated, 2);
}

#[test]
fn counters_follow_the_catalog() {
    let mut registry = ToolRegistry::new();
    registry.register_tool(tool("l1", ToolSource::Local), 1);
    registry.register_tool(tool("f1", federated("a")), 1);
    registry.register_tool(tool("f2", federated("b")), 1);
    let metrics = registry.get_metrics();
    assert_eq!(metrics.total_tools, 3);
    assert_eq!(metrics.local_tools, 1);
    assert_eq!(metrics.federated_tools, 2);
    assert!(registry.remove_tool("f1").is_some());
    assert!(registry.remove_tool("f1").is_none());
    let metrics = registry.get_metrics();
    assert_eq!(metrics.total_tools, 2);
    assert_eq!(metrics.local_tools, 1);
    assert_eq!(metrics.federated_tools, 1);
    let events = registry.take_events();
    assert_eq!(events.len(), 4);
    assert!(matches!(&events[3], RegistryChangeEvent::ToolRemoved(name) if name == "f1"));
}

#[test]
fn removing_a_source_removes_exactly_its_tools() {
    let mut registry = ToolRegistry::new();
    registry.register_tool(tool("a1", federated("a")), 1);
    registry.register_tool(tool("a2", federated("a")), 1);
    registry.register_tool(tool("b1", federated("b")), 1);
    registry.register_tool(tool("l1", ToolSource::Local), 1);
    let untouched = registry.get_tool("b1").unwrap();
    registry.take_events();

    let mut removed = registry.remove_tools_from_source("a");
    removed.sort();
    assert_eq!(removed, vec!["a1".to_string(), "a2".to_string()]);
    assert!(registry.get_tool("a1").is_none());
    assert!(registry.get_tool("a2").is_none());
    assert_eq!(names(&registry.get_all_tools()), vec!["b1".to_string(), "l1".to_string()]);
    let still = registry.get_tool("b1").unwrap();
    assert_eq!(still.spec_hash, untouched.spec_hash);
    assert_eq!(still.last_updated, untouched.last_updated);
    let events = registry.take_events();
    assert_eq!(events.len(), 1);
    assert!(matches!(&events[0], RegistryChangeEvent::SourceRemoved(id) if id == "a"));
    assert_eq!(registry.get_metrics().total_tools, 2);

    assert!(registry.remove_tools_from_source("a").is_empty());
    assert!(registry.take_events().is_empty());
    assert_eq!(registry.remove_tools_from_source("local"), vec!["l1".to_string()]);
    assert_eq!(names(&registry.get_all_tools()), vec!["b1".to_string()]);
}

#[test]
fn tools_are_listed_by_source() {
    let mut registry = ToolRegistry::new();
    registry.register_tool(tool("a1", federated("a")), 1);
    registry.register_tool(tool("b1", federated("b")), 1);
    registry.register_tool(tool("a2", federated("a")), 1);
    registry.register_tool(tool("l1", ToolSource::Local), 1);
    assert_eq!(names(&registry.get_tools_from_source("a")), vec!["a1".to_string(), "a2".to_string()]);
    assert_eq!(names(&registry.get_tools_from_source("local")), vec!["l1".to_string()]);
    assert!(registry.get_tools_from_source("nobody").is_empty());
}

#[test]
fn source_matching() {
    assert!(source_is(&ToolSource::Local, "local"));
    assert!(!source_is(&ToolSource::Local, "a"));
    assert!(source_is(&federated("a"), "a"));
    assert!(!source_is(&federated("a"), "b"));
    assert!(!source_is(&federated("a"), "local"));
}

#[test]
fn seeding_registers_the_builtin_tools() {
    let mut registry = ToolRegistry::new();
    registry.seed_with_local_tools(9);
    assert_eq!(
        names(&registry.get_all_tools()),
        vec![
            "discover_mcp_tools".to_string(),
            "exa_research_example".to_string(),
            "exa_search_example".to_string(),
            "orchestrate_mcp_proxy".to_string(),
        ]
    );
    assert!(registry.take_events().is_empty());
    let metrics = registry.get_metrics();
    assert_eq!(metrics.total_tools, 4);
    assert_eq!(metrics.local_tools, 4);
    assert_eq!(metrics.federated_tools, 0);
    let proxy = registry.get_tool("orchestrate_mcp_proxy").unwrap();
    assert_eq!(proxy.spec_version, "2.0.0");
    assert_eq!(proxy.last_updated, 9);
    assert_eq!(proxy.spec_hash.len(), 64);
    assert!(matches!(proxy.source, ToolSource::Local));
    assert_eq!(
        proxy.input_schema["required"],
        doc(r#"["target_server", "tool_name", "original_params"]"#)
    );
    assert_eq!(proxy.metadata["category"], "orchestration");
    let search = registry.get_tool("exa_search_example").unwrap();
    assert_eq!(search.spec_version, "1.0.0");
    assert_eq!(search.input_schema["properties"]["query"]["type"], "string");
    assert!(search.output_schema.is_some());
    assert!(registry
        .validate_tool_arguments("exa_search_example", &doc(r#"{"query": "rust"}"#))
        .is_ok());
    assert!(registry.validate_tool_arguments("exa_search_example", &doc("{}")).is_err());
}

#[test]
fn a_copy_of_a_tool_is_the_tool() {
    let mut given = tool("copy", federated("a"));
    given.output_schema = Some(doc(r#"{"type":"number"}"#));
    let copy = clone_tool(&given);
    assert_eq!(copy.name, given.name);
    assert_eq!(copy.description, given.description);
    assert_eq!(copy.input_schema, given.input_schema);
    assert_eq!(copy.output_schema, given.output_schema);
    assert_eq!(copy.spec_version, given.spec_version);
    assert_eq!(copy.metadata, given.metadata);
    assert!(
        matches!(copy.source, ToolSource::Federated { ref server_id, ref server_url } if server_id == "a" && server_url == "server://a")
    );
}

#[test]
fn dead_listeners_are_listed_last_first() {
    assert_eq!(dead_listeners(&vec![true, false, true, false, false]), vec![4, 3, 1]);
    assert!(dead_listeners(&vec![true, true]).is_empty());
    assert!(dead_listeners(&Vec::new()).is_empty());
    assert_eq!(dead_listeners(&vec![false]), vec![0]);
}

#[test]
fn a_schema_that_refers_to_itself_is_refused_unchecked() {
    let mut registry = ToolRegistry::new();
    for (name, schema) in [
        ("loop", r##"{"$ref": "#"}"##),
        ("nested", r##"{"type": "object", "properties": {"a": {"allOf": [{"$ref": "#"}]}}}"##),
        ("cycle", r##"{"$ref": "#/definitions/a", "definitions": {"a": {"$ref": "#/definitions/a"}}}"##),
    ] {
        let mut looping = tool(name, ToolSource::Local);
        looping.input_schema = doc(schema);
        registry.register_tool(looping, 1);
        let errors = registry.validate_tool_arguments(name, &doc("{}")).unwrap_err();
        assert_eq!(
            errors,
            vec![format!(
                "Invalid JSON schema for tool '{}': the schema holds a reference or nests too deep",
                name
            )]
        );
    }
    assert_eq!(registry.get_metrics().schema_validation_errors, 0);
}

#[test]
fn references_are_found_at_any_depth() {
    assert!(is_checkable(&query_schema()));
    assert!(is_checkable(&doc("7")));
    assert!(is_checkable(&doc(r#"[{"a": [1, {"b": null}]}]"#)));
    assert!(!is_checkable(&doc(r##"{"$ref": "#"}"##)));
    assert!(!is_checkable(&doc(r##"[1, [2, {"x": {"y": [{"$ref": "z"}]}}]]"##)));
    assert!(is_checkable(&doc(r##"{"ref": "#", "x": "$ref"}"##)));
}

#[test]
fn a_schema_may_nest_only_so_deep() {
    assert_eq!(SCHEMA_DEPTH_LIMIT, 64);
    let nested = |levels: usize| {
        let mut text = String::new();
        for _ in 0..levels {
            text.push_str(r#"{"not":"#);
        }
        text.push_str("true");
        for _ in 0..levels {
            text.push('}');
        }
        doc(&text)
    };
    assert!(is_checkable(&nested(64)));
    assert!(!is_checkable(&nested(65)));
    assert!(is_reference_free(&nested(3), 3));
    assert!(!is_reference_free(&nested(3), 2));
    assert!(is_reference_free(&doc("1"), 0));
    assert!(!is_reference_free(&doc("{}"), 0));
    assert!(!is_reference_free(&doc("[]"), 0));
    assert!(is_reference_free(&doc("[]"), 1));
}
