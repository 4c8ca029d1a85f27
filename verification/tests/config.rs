use casial_federation::config::{
    default_backoff_initial_ms, default_backoff_max_ms, default_circuit_breaker_reset_seconds,
    default_circuit_breaker_threshold, default_tool_cache_ttl_seconds, FederationSettings,
    ServerConfig,
};

#[test]
fn federation_defaults() {
    let settings = FederationSettings::default();
    assert!(!settings.enabled);
    assert!(settings.downstream_servers.is_empty());
    assert_eq!(settings.catalog_refresh_interval, 300);
    assert!(settings.spec_version_tracking);
    assert_eq!(settings.connection_timeout_ms, 10_000);
    assert_eq!(settings.max_retries, 3);
    assert_eq!(settings.tool_cache_ttl_seconds, 300);
    assert_eq!(settings.circuit_breaker_threshold, 3);
    assert_eq!(settings.circuit_breaker_reset_seconds, 180);
    assert_eq!(settings.backoff_initial_ms, 250);
    assert_eq!(settings.backoff_max_ms, 5_000);
}

#[test]
fn default_functions() {
    assert_eq!(default_tool_cache_ttl_seconds(), 300);
    assert_eq!(default_circuit_breaker_threshold(), 3);
    assert_eq!(default_circuit_breaker_reset_seconds(), 180);
    assert_eq!(default_backoff_initial_ms(), 250);
    assert_eq!(default_backoff_max_ms(), 5_000);
}

#[test]
fn server_defaults() {
    let config = ServerConfig::default();
    assert_eq!(config.server.port, 8000);
    assert_eq!(config.server.max_connections, 1000);
    assert_eq!(config.server.timeout_seconds, 300);
    assert!(config.consciousness.enabled);
    assert_eq!(config.consciousness.perception_lock_timeout, 30);
    assert_eq!(config.consciousness.paradox_resolution_timeout, 60);
    assert!(config.consciousness.substrate_integration);
    assert!(config.metrics.enabled);
    assert_eq!(config.metrics.collection_interval, 30);
    assert_eq!(config.metrics.retention_hours, 24);
    assert_eq!(config.logging.level, "info");
    assert!(!config.logging.json_format);
    assert!(config.logging.file_output.is_none());
    assert!(!config.federation.enabled);
}
