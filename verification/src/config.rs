//! The read-only settings of a run.

use vstd::prelude::*;

verus! {

/// Seconds between two cycles when the settings name none.
pub const DEFAULT_RUN_INTERVAL_SECONDS: u64 = 3600;

/// Milliseconds a single probe may take before it counts as failed.
pub const PROBE_TIMEOUT_MILLIS: u64 = 6000;

/// Everything a run is configured with.
#[derive(Debug, Clone)]
pub struct Config {
    pub cloudflare: CloudflareConfig,
    pub cdn: CdnConfig,
    pub optimization: OptimizationConfig,
}

/// Credentials and identifiers of the DNS record that is kept up to date.
#[derive(Debug, Clone)]
pub struct CloudflareConfig {
    pub api_token: String,
    pub zone_id: String,
    pub record_id: String,
    pub domain: String,
    pub update_dns: bool,
}

/// The address ranges whose members are probed.
#[derive(Debug, Clone)]
pub struct CdnConfig {
    pub cidr_list: Vec<String>,
}

/// How a cycle probes and what it keeps.
#[derive(Debug, Clone)]
pub struct OptimizationConfig {
    pub ping_threads: usize,
    pub top_ips_to_save: usize,
    pub run_interval_seconds: u64,
    pub debug: bool,
}

/// The pause between cycles: the configured one, or the default where none is set.
pub open spec fn run_interval(configured: Option<u64>) -> u64 {
    match configured {
        Some(seconds) => seconds,
        None => DEFAULT_RUN_INTERVAL_SECONDS,
    }
}

/// Picks the pause between two cycles.
pub fn effective_run_interval(configured: Option<u64>) -> (seconds: u64)
    ensures
        seconds == run_interval(configured),
{
    match configured {
        Some(seconds) => seconds,
        None => DEFAULT_RUN_INTERVAL_SECONDS,
    }
}

} // verus!
