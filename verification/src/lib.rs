//! Latency-driven selection of the fastest address in a set of CDN ranges.
//!
//! The crate holds the decisions of one optimisation cycle: which addresses a
//! list of CIDR ranges covers, how a probe's outcome becomes a latency, how
//! many probes may run at once, how results are ranked, what is written to the
//! results file and which address is published. Performing the probes, the
//! file write and the DNS request is left to the caller.

pub mod address;
pub mod config;
pub mod cycle;
pub mod dns;
pub mod probe;
pub mod ranges;
pub mod ranking;
pub mod scheduler;
pub mod sink;
pub mod text;
