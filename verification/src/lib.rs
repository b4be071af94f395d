//! Verified core of a federation gateway's telemetry overlay.
//!
//! The crate models the request-instrumentation pipeline of a GraphQL
//! federation router: attribute forwarding from headers, bodies, context and
//! errors; span construction and span-export filtering; usage-stats
//! aggregation over possibly streamed responses; and the process-wide
//! telemetry lifecycle (one-shot initialization, reference-counted teardown).
//! Everything that decides or computes is verified; the unverified edges
//! (HTTP transport, exporter backends, global installation) live outside.

pub mod attributes;
pub mod endpoint;
pub mod forward;
pub mod json;
pub mod lifecycle;
pub mod merge;
pub mod pipeline;
pub mod propagator;
pub mod span;
pub mod text;
pub mod usage;
