//! Adapts inbound cloud API-gateway proxy events (default gateway domain,
//! custom domain, and load-balancer topologies) into requests dispatchable
//! against an in-process web application, and translates the application's
//! response back into a gateway-compatible response.
//!
//! The verified core covers path resolution and base-path reconciliation,
//! query-string reattachment, request and response translation (including the
//! body-encoding decision), and the exactly-once lazy initialization of the
//! dispatch handle. The framework being wrapped is an external collaborator:
//! the surrounding (unverified) glue performs the actual dispatch.

pub mod config;
pub mod error;
pub mod event;
pub mod lifecycle;
pub mod paths;
pub mod query;
pub mod request;
pub mod response;
pub mod strutil;
