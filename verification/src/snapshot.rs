//! The aggregate status snapshot: a structure of independently optional
//! fields, each degraded on its own when its source fails, assembled around
//! one rule — a stopped server reports nothing but its status.

use vstd::prelude::*;

verus! {

/// One immutable status snapshot. Every field but `status` is best-effort:
/// absence means its source failed, never that the snapshot failed.
#[derive(Debug)]
pub struct ServiceInfo {
    pub status: String,
    pub version: Option<String>,
    pub uptime: Option<String>,
    pub cpu_usage: Option<String>,
    pub memory_usage: Option<String>,
    pub active_connections: Option<usize>,
    pub total_connections: Option<usize>,
    pub requests_per_second: Option<usize>,
}

/// A snapshot of a stopped server: all optional fields are absent, never
/// stale values.
pub open spec fn is_stopped_snapshot(info: ServiceInfo) -> bool {
    &&& info.status@ == "stopped"@
    &&& info.version is None
    &&& info.uptime is None
    &&& info.cpu_usage is None
    &&& info.memory_usage is None
    &&& info.active_connections is None
    &&& info.total_connections is None
    &&& info.requests_per_second is None
}

/// Builds the snapshot of one status-gathering pass. When the server is not
/// running every optional field is dropped, whatever the sub-queries
/// returned; when it is running, each field carries its own sub-query's
/// result unchanged.
pub fn build_service_info(
    running: bool,
    version: Option<String>,
    uptime: Option<String>,
    cpu_usage: Option<String>,
    memory_usage: Option<String>,
    active_connections: Option<usize>,
    total_connections: Option<usize>,
    requests_per_second: Option<usize>,
) -> (r: ServiceInfo)
    ensures
        !running ==> is_stopped_snapshot(r),
        running ==> {
            &&& r.status@ == "running"@
            &&& r.version == version
            &&& r.uptime == uptime
            &&& r.cpu_usage == cpu_usage
            &&& r.memory_usage == memory_usage
            &&& r.active_connections == active_connections
            &&& r.total_connections == total_connections
            &&& r.requests_per_second == requests_per_second
        },
{
    if running {
        ServiceInfo {
            status: String::from_str("running"),
            version,
            uptime,
            cpu_usage,
            memory_usage,
            active_connections,
            total_connections,
            requests_per_second,
        }
    } else {
        ServiceInfo {
            status: String::from_str("stopped"),
            version: None,
            uptime: None,
            cpu_usage: None,
            memory_usage: None,
            active_connections: None,
            total_connections: None,
            requests_per_second: None,
        }
    }
}

/// Stopped snapshot invariant: a snapshot built by a pass that did not see
/// the server running reports the stopped status and nothing else; and
/// whenever a built snapshot reports the stopped status, every other field
/// is absent.
pub proof fn lemma_stopped_snapshot(running: bool, r: ServiceInfo)
    requires
        ({
            ||| !running && is_stopped_snapshot(r)
            ||| running && r.status@ == "running"@
        }),
        r.status@ == "stopped"@,
    ensures
        is_stopped_snapshot(r),
{
    reveal_strlit("running");
    reveal_strlit("stopped");
    assert("running"@.len() == 7);
    assert("stopped"@.len() == 7);
    assert("running"@[0] == 'r');
    assert("stopped"@[0] == 's');
}

/// Metrics degradation: when the server is alive but the status endpoint is
/// unreachable, the snapshot still reports the running status, with the
/// connection fields absent rather than the pass failing.
pub proof fn lemma_metrics_degradation(
    r: ServiceInfo,
    version: Option<String>,
    uptime: Option<String>,
    cpu_usage: Option<String>,
    memory_usage: Option<String>,
)
    requires
        r.status@ == "running"@,
        r.version == version,
        r.uptime == uptime,
        r.cpu_usage == cpu_usage,
        r.memory_usage == memory_usage,
        r.active_connections is None,
        r.total_connections is None,
        r.requests_per_second is None,
    ensures
        r.status@ != "stopped"@,
        r.active_connections is None && r.total_connections is None && r.requests_per_second
            is None,
{
    reveal_strlit("running");
    reveal_strlit("stopped");
    assert("running"@.len() == 7);
    assert("stopped"@.len() == 7);
    assert("running"@[0] == 'r');
    assert("stopped"@[0] == 's');
}

/// A point-in-time report of the supervised binary, as its own diagnostics
/// describe it.
#[derive(Debug)]
pub struct NginxStatus {
    pub is_running: bool,
    pub version: String,
    pub config_test: bool,
    pub error_message: Option<String>,
}

/// The figures shown on the dashboard, all required, derived from one
/// snapshot with zeroes and empty strings for absent fields.
#[derive(Debug)]
pub struct DashboardStats {
    pub active_connections: usize,
    pub requests_per_second: usize,
    pub total_requests: usize,
    pub memory_usage: String,
    pub cpu_usage: String,
    pub uptime: String,
}

} // verus!
