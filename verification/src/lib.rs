//! A layer-7 reverse-proxy core: weighted round-robin upstream selection,
//! backend health tracking, request-pipeline decisions and a metrics registry.
//!
//! The crate holds the decision and bookkeeping logic only; listening,
//! forwarding and probing sockets are the caller's concern.  Every function
//! here carries a contract checked by Verus.

pub mod config;
pub mod metrics;
pub mod pipeline;
pub mod prober;
pub mod selector;
pub mod tasks;
pub mod text;
pub mod upstreams;
