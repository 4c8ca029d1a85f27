//! Federation core of a gateway that aggregates the tools of several
//! downstream JSON-RPC servers: per-backend circuit breaking, catalog
//! caching, the shared tool registry, request correlation and call routing.

pub mod builtin;
pub mod cache;
pub mod circuit;
pub mod client;
pub mod config;
pub mod counter;
pub mod digest;
pub mod federation;
pub mod json;
pub mod metrics;
pub mod pitfall_shim;
pub mod registry;
pub mod snapshot;
