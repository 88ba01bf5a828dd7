//! Edge gateway library: route table, credential checks, the per-request
//! authorization pipeline, the proxy leg and the feature migration engine.
pub mod config;
pub mod migration;
pub mod route_table;
pub mod credentials;
pub mod gateway;
pub mod proxy;
pub mod webhooks;
