//! The tools the gateway provides itself.

use vstd::prelude::*;

verus! {

pub const ORCHESTRATE_NAME: &'static str = "orchestrate_mcp_proxy";

pub const ORCHESTRATE_DESCRIPTION: &'static str =
    "Orchestrate and augment tool calls to other MCP servers. This tool acts as a consciousness-aware proxy that can inject context, add swarm instructions, and coordinate multi-agent behaviors before forwarding to target MCP servers. Supports Exa MCP with specialized research templates.";

pub const ORCHESTRATE_INPUT_SCHEMA: &'static str =
    "{\"type\":\"object\",\"properties\":{\"target_server\":{\"type\":\"string\",\"description\":\"URL of the target MCP server to proxy to\"},\"tool_name\":{\"type\":\"string\",\"description\":\"Name of the tool to invoke on the target server\"},\"original_params\":{\"type\":\"object\",\"description\":\"Original parameters for the target tool\"},\"augmentation_config\":{\"type\":\"object\",\"properties\":{\"inject_context\":{\"type\":\"boolean\",\"description\":\"Inject consciousness-aware context into the request\"},\"add_swarm_instructions\":{\"type\":\"array\",\"items\":{\"type\":\"string\"},\"description\":\"Swarm coordination instructions to inject\"},\"paradox_tolerance\":{\"type\":\"number\",\"minimum\":0,\"maximum\":1,\"description\":\"Tolerance for paradoxical results (0=strict, 1=adaptive)\"},\"perception_ids\":{\"type\":\"array\",\"items\":{\"type\":\"string\"},\"description\":\"Perception template IDs to apply\"},\"domain_filters\":{\"type\":\"object\",\"properties\":{\"include_domains\":{\"type\":\"array\",\"items\":{\"type\":\"string\"},\"description\":\"Domain patterns to include (e.g., '*.edu', '*/research/*')\"},\"exclude_domains\":{\"type\":\"array\",\"items\":{\"type\":\"string\"},\"description\":\"Domain patterns to exclude\"}}},\"livecrawl_mode\":{\"type\":\"string\",\"enum\":[\"never\",\"fallback\",\"preferred\",\"always\"],\"description\":\"Livecrawling preference for fresh content\"}}}},\"required\":[\"target_server\",\"tool_name\",\"original_params\"]}";

pub const ORCHESTRATE_OUTPUT_SCHEMA: &'static str =
    "{\"type\":\"object\",\"properties\":{\"original_result\":{\"type\":\"object\"},\"augmented_result\":{\"type\":\"object\"},\"consciousness_coordination\":{\"type\":\"object\"},\"paradoxes_detected\":{\"type\":\"array\"},\"swarm_responses\":{\"type\":\"array\"}}}";

pub const ORCHESTRATE_VERSION: &'static str = "2.0.0";

pub const ORCHESTRATE_METADATA: &'static str =
    "{\"category\":\"orchestration\",\"consciousness_aware\":true,\"proxy_capable\":true}";

pub const DISCOVER_NAME: &'static str = "discover_mcp_tools";

pub const DISCOVER_DESCRIPTION: &'static str =
    "Discover and analyze tools from any MCP server. Fetches the tool list and provides consciousness-aware analysis of capabilities, generating orchestration strategies.";

pub const DISCOVER_INPUT_SCHEMA: &'static str =
    "{\"type\":\"object\",\"properties\":{\"server_url\":{\"type\":\"string\",\"description\":\"URL of the MCP server to discover\"},\"analyze_for_orchestration\":{\"type\":\"boolean\",\"description\":\"Generate orchestration strategies for discovered tools\",\"default\":true},\"perception_mapping\":{\"type\":\"boolean\",\"description\":\"Map tools to consciousness perception templates\",\"default\":true}},\"required\":[\"server_url\"]}";

pub const DISCOVER_OUTPUT_SCHEMA: &'static str =
    "{\"type\":\"object\",\"properties\":{\"tools\":{\"type\":\"array\"},\"orchestration_strategies\":{\"type\":\"array\"},\"perception_mappings\":{\"type\":\"object\"},\"compatibility_report\":{\"type\":\"object\"}}}";

pub const DISCOVER_VERSION: &'static str = "2.0.0";

pub const DISCOVER_METADATA: &'static str =
    "{\"category\":\"discovery\",\"consciousness_aware\":true}";

pub const EXA_SEARCH_NAME: &'static str = "exa_search_example";

pub const EXA_SEARCH_DESCRIPTION: &'static str =
    "[Example Tool] Demonstrates Exa search orchestration. When used through orchestrate_mcp_proxy targeting an Exa MCP server, automatically applies research consciousness, temporal awareness, and domain filtering based on the exa-mcp-orchestration mission.";

pub const EXA_SEARCH_INPUT_SCHEMA: &'static str =
    "{\"type\":\"object\",\"properties\":{\"query\":{\"type\":\"string\"},\"numResults\":{\"type\":\"number\"},\"projectPath\":{\"type\":\"string\",\"description\":\"Project path for context discovery\"},\"perceptionIds\":{\"type\":\"array\",\"items\":{\"type\":\"string\"}}},\"required\":[\"query\"]}";

pub const EXA_SEARCH_OUTPUT_SCHEMA: &'static str =
    "{\"type\":\"object\",\"properties\":{\"status\":{\"type\":\"string\"},\"results\":{\"type\":\"array\"},\"context_enhanced\":{\"type\":\"boolean\"},\"consciousness_coordination\":{\"type\":\"object\"}}}";

pub const EXA_SEARCH_VERSION: &'static str = "1.0.0";

pub const EXA_SEARCH_METADATA: &'static str =
    "{\"category\":\"search\",\"consciousness_aware\":true}";

pub const EXA_RESEARCH_NAME: &'static str = "exa_research_example";

pub const EXA_RESEARCH_DESCRIPTION: &'static str =
    "[Example Tool] Demonstrates Exa research task orchestration. When used through orchestrate_mcp_proxy with an Exa MCP server, applies multi-agent coordination pattern (Planner, Websets, Crawlers, Synthesizer, Verifier) with citation enforcement.";

pub const EXA_RESEARCH_INPUT_SCHEMA: &'static str =
    "{\"type\":\"object\",\"properties\":{\"instructions\":{\"type\":\"string\"},\"model\":{\"type\":\"string\",\"enum\":[\"exa-research\",\"exa-research-pro\"]},\"projectPath\":{\"type\":\"string\"},\"paradoxTolerance\":{\"type\":\"number\",\"minimum\":0,\"maximum\":1}},\"required\":[\"instructions\"]}";

pub const EXA_RESEARCH_OUTPUT_SCHEMA: &'static str =
    "{\"type\":\"object\",\"properties\":{\"task_id\":{\"type\":\"string\"},\"status\":{\"type\":\"string\"},\"consciousness_enhanced\":{\"type\":\"boolean\"}}}";

pub const EXA_RESEARCH_VERSION: &'static str = "1.0.0";

pub const EXA_RESEARCH_METADATA: &'static str =
    "{\"category\":\"research\",\"consciousness_aware\":true}";

} // verus!
