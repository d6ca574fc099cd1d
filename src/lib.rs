//! Request-tracing middleware core: the per-request transaction lifecycle,
//! attribute bookkeeping, segment dispatch and response finalisation, with
//! the tracing backend and the web framework kept outside as plain values
//! and calls.
pub mod config;
pub mod naming;
pub mod registry;
pub mod status;
pub mod transaction;
