//! Request-routing and endpoint-stack core of a service-mesh sidecar proxy.
//!
//! The crate models the decision logic of the proxy over plain values: how a
//! destination address is recognized from request headers, how connections to
//! endpoints are filtered against loops and upgraded to TLS, how the gateway
//! validates and forwards cross-cluster requests, and how cached services are
//! constructed once and evicted when idle.

pub mod cache;
pub mod connect;
pub mod detect;
pub mod discovery;
pub mod endpoint;
pub mod errors;
pub mod gateway;
pub mod http;
pub mod identity;
pub mod ingress;
pub mod metrics;
pub mod net;
pub mod opaque;
pub mod profiles;
