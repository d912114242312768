//! A caching DNS forwarder's resolution engine: pending-query deduplication,
//! upstream selection with failover and health checks, retry escalation and a
//! TTL-aware cache, driven as a state machine from events to actions.
use vstd::prelude::*;

pub mod cache;
pub mod codec;
pub mod outside;
pub mod pending;
pub mod reply;
pub mod resolver;
pub mod upstream;
pub mod wire;

verus! {

/// Milliseconds that a client waits before its query is answered from the
/// stale cache or with SERVFAIL.
pub const UPSTREAM_TIMEOUT_MS: u64 = 10000;

/// First retry delay of an in-flight query.
pub const UPSTREAM_INITIAL_TIMEOUT_MS: u64 = 1000;

/// Largest retry delay; a query whose delay grows past it is no longer resent.
pub const UPSTREAM_MAX_TIMEOUT_MS: u64 = 8000;

/// Interval between two health checks of the upstream servers.
pub const HEALTH_CHECK_MS: u64 = 10000;

/// TTL under which a SERVFAIL answer is cached.
pub const FAILURE_TTL: u32 = 30;

/// Most clients that may wait for one question.
pub const MAX_CLIENTS_WAITING_FOR_QUERY: usize = 1000;

/// Most in-flight questions.
pub const MAX_ACTIVE_QUERIES: usize = 100000;

/// Above this many waiting clients, the oldest question is shed.
pub const MAX_WAITING_CLIENTS: usize = 1000000;

} // verus!
