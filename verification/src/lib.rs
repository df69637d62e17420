//! Fan-out engine for duplicating one inbound HTTP request to many targets.
//!
//! The library is the sequential core of the duplicator: two bounded
//! priority queues, the counters and per-target ledger that observe them,
//! the retry budget, and the load-shedding flush. A host wraps one
//! [`dispatcher::Dispatcher`] in its own synchronisation and drives it from
//! its request handlers and workers.

pub mod priority;
pub mod headers;
pub mod targets;
pub mod context;
pub mod target_log;
pub mod retry;
pub mod model;
pub mod counters;
pub mod dispatcher;
pub mod laws;
pub mod intake;
