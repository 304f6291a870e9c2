//! The After Effects server: pure-compute helpers, the live-control tool
//! decisions, the bridge command queue and the panel's HTTP endpoints.
pub mod helpers;
pub mod state;
pub mod live;
pub mod endpoint;
pub mod kv_stub;
