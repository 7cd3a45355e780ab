//! Determines, for a batch of candidate domain names, whether each is
//! registered, by classifying the outcomes of two DNS lookups per domain
//! (nameserver records and address records), driving the probes under a
//! global concurrency cap, and aggregating the per-domain statuses into a
//! summarized report.
//!
//! The DNS queries themselves are network I/O and live outside this crate;
//! the library receives each lookup's outcome as a plain value and is
//! verified from there: outcome classification, the bounded-concurrency
//! coordination state machine, and report aggregation.

pub mod coordinator;
pub mod report;
pub mod status;
