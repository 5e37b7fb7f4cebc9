//! Builds a directed graph of federation moderation relationships: which
//! server instance blocks which, annotated with user counts and whether the
//! instance publishes its moderation list.
//!
//! The library holds the verified core of the pipeline: parsing user counts,
//! classifying fetch responses, the bounded fan-out schedule, and the
//! accumulator that folds per-instance fetch outcomes into a graph. The
//! HTTP calls, the clock and the on-disk report live outside it and hand it
//! plain values.
#![verifier::loop_isolation(false)]

pub mod accumulator;
pub mod fetch;
pub mod model;
pub mod parse;
pub mod roster;
pub mod scheduler;
