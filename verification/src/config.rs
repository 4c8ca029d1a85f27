//! Settings consumed by the gateway and its federation layer.

use vstd::prelude::*;

verus! {

/// Top-level configuration of the gateway.
#[derive(Debug, Clone)]
pub struct ServerConfig {
    pub server: ServerSettings,
    pub consciousness: ConsciousnessSettings,
    pub metrics: MetricsSettings,
    pub logging: LoggingSettings,
    pub federation: FederationSettings,
}

#[derive(Debug, Clone)]
pub struct ServerSettings {
    pub port: u16,
    pub max_connections: usize,
    pub timeout_seconds: u64,
}

#[derive(Debug, Clone)]
pub struct ConsciousnessSettings {
    pub enabled: bool,
    pub perception_lock_timeout: u64,
    pub paradox_resolution_timeout: u64,
    pub substrate_integration: bool,
}

#[derive(Debug, Clone)]
pub struct MetricsSettings {
    pub enabled: bool,
    pub collection_interval: u64,
    pub retention_hours: u64,
}

#[derive(Debug, Clone)]
pub struct LoggingSettings {
    pub level: String,
    pub json_format: bool,
    pub file_output: Option<String>,
}

/// Federation-wide settings: sync cadence, retry budget, cache lifetime and
/// the circuit breaker's threshold, reset window and backoff bounds.
#[derive(Debug, Clone)]
pub struct FederationSettings {
    pub enabled: bool,
    pub downstream_servers: Vec<DownstreamMcpServer>,
    /// Seconds between periodic syncs; 0 disables the timer.
    pub catalog_refresh_interval: u64,
    pub spec_version_tracking: bool,
    pub connection_timeout_ms: u64,
    pub max_retries: u32,
    /// Seconds a cached catalog stays live; 0 disables caching.
    pub tool_cache_ttl_seconds: u64,
    pub circuit_breaker_threshold: u32,
    pub circuit_breaker_reset_seconds: u64,
    pub backoff_initial_ms: u64,
    pub backoff_max_ms: u64,
}

/// One downstream server. Immutable after load.
#[derive(Debug, Clone)]
pub struct DownstreamMcpServer {
    pub id: String,
    pub name: String,
    pub url: String,
    /// Transport tag, such as "websocket" or "stdio".
    pub connection_type: String,
    pub enabled: bool,
    pub timeout_ms: u64,
    pub priority: u8,
    pub auth: Option<McpAuth>,
}

#[derive(Debug, Clone)]
pub struct McpAuth {
    /// "header", "query" or "websocket-subprotocol".
    pub auth_type: String,
    pub token: Option<String>,
    pub username: Option<String>,
    pub password: Option<String>,
}

pub fn default_tool_cache_ttl_seconds() -> (r: u64)
    ensures
        r == 300,
{
    300
}

pub fn default_circuit_breaker_threshold() -> (r: u32)
    ensures
        r == 3,
{
    3
}

pub fn default_circuit_breaker_reset_seconds() -> (r: u64)
    ensures
        r == 180,
{
    180
}

pub fn default_backoff_initial_ms() -> (r: u64)
    ensures
        r == 250,
{
    250
}

pub fn default_backoff_max_ms() -> (r: u64)
    ensures
        r == 5000,
{
    5_000
}

impl FederationSettings {
    /// The settings a gateway starts from when none are configured.
    pub open spec fn is_default(self) -> bool {
        &&& !self.enabled
        &&& self.downstream_servers@.len() == 0
        &&& self.catalog_refresh_interval == 300
        &&& self.spec_version_tracking
        &&& self.connection_timeout_ms == 10_000
        &&& self.max_retries == 3
        &&& self.tool_cache_ttl_seconds == 300
        &&& self.circuit_breaker_threshold == 3
        &&& self.circuit_breaker_reset_seconds == 180
        &&& self.backoff_initial_ms == 250
        &&& self.backoff_max_ms == 5_000
    }
}

impl Default for FederationSettings {
    fn default() -> (r: Self)
        ensures
            r.is_default(),
    {
        FederationSettings {
            enabled: false,
            downstream_servers: Vec::new(),
            catalog_refresh_interval: 300,
            spec_version_tracking: true,
            connection_timeout_ms: 10_000,
            max_retries: 3,
            tool_cache_ttl_seconds: default_tool_cache_ttl_seconds(),
            circuit_breaker_threshold: default_circuit_breaker_threshold(),
            circuit_breaker_reset_seconds: default_circuit_breaker_reset_seconds(),
            backoff_initial_ms: default_backoff_initial_ms(),
            backoff_max_ms: default_backoff_max_ms(),
        }
    }
}

impl ServerConfig {
    pub open spec fn is_default(self) -> bool {
        &&& self.server.port == 8000
        &&& self.server.max_connections == 1000
        &&& self.server.timeout_seconds == 300
        &&& self.consciousness.enabled
        &&& self.consciousness.perception_lock_timeout == 30
        &&& self.consciousness.paradox_resolution_timeout == 60
        &&& self.consciousness.substrate_integration
        &&& self.metrics.enabled
        &&& self.metrics.collection_interval == 30
        &&& self.metrics.retention_hours == 24
        &&& self.logging.level@ == "info"@
        &&& !self.logging.json_format
        &&& self.logging.file_output is None
        &&& self.federation.is_default()
    }
}

impl Default for ServerConfig {
    fn default() -> (r: Self)
        ensures
            r.is_default(),
    {
        ServerConfig {
            server: ServerSettings { port: 8000, max_connections: 1000, timeout_seconds: 300 },
            consciousness: ConsciousnessSettings {
                enabled: true,
                perception_lock_timeout: 30,
                paradox_resolution_timeout: 60,
                substrate_integration: true,
            },
            metrics: MetricsSettings { enabled: true, collection_interval: 30, retention_hours: 24 },
            logging: LoggingSettings {
                level: "info".to_string(),
                json_format: false,
                file_output: None,
            },
            federation: FederationSettings::default(),
        }
    }
}

} // verus!
