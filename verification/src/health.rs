use vstd::prelude::*;

verus! {

/// Whether the provider can serve requests.
#[derive(Debug, Clone, Copy, PartialEq, Eq, Structural)]
pub enum HealthStatus {
    Healthy,
    Unhealthy,
}

/// The answer to a health check.
pub struct HealthReport {
    pub status: HealthStatus,
    pub last_error: Option<String>,
}

/// The message of an unhealthy report: the binary that was not found.
pub open spec fn spec_missing_binary_message(opencode_bin: Seq<char>) -> Seq<char> {
    "opencode binary not found on PATH: "@ + opencode_bin
}

} // verus!
