//! The local API's lifecycle: what it reports, what it publishes for
//! clients, and the decisions of enabling, disabling and starting up.

use vstd::prelude::*;

use crate::error::{AppError, AppResult};
use crate::text::push_str;

verus! {

/// Whether the API runs, and on which port.
#[derive(Debug, Clone, PartialEq, Eq)]
pub struct ApiStatus {
    pub enabled: bool,
    pub port: Option<u16>,
}

/// What the discovery file tells clients: where the API listens and its key.
#[derive(Debug, Clone, PartialEq, Eq)]
pub struct DiscoveryFile {
    pub port: u16,
    pub key: String,
}

/// The status of an API that runs on `running` (or does not run).
pub fn status_of(running: Option<u16>) -> (s: ApiStatus)
    ensures
        s.enabled == (running is Some),
        s.port == running,
{
    ApiStatus { enabled: running.is_some(), port: running }
}

/// An I/O failure, as an internal error.
pub fn io_error(detail: &str) -> (e: AppError)
    ensures
        e matches AppError::Internal(m) && m@ == "I/O operation failed: "@ + detail@,
{
    let mut message = "I/O operation failed: ".to_string();
    push_str(&mut message, detail);
    AppError::Internal(message)
}

/// The error reported when both the API start and the rollback of the
/// enabled setting failed.
pub fn startup_recovery_failed() -> (e: AppError)
    ensures
        e matches AppError::Internal(m) && m@ == "API startup and settings recovery both failed"@,
{
    AppError::internal("API startup and settings recovery both failed")
}

/// What enabling leads to, once the server start and the settings write
/// have been tried: a failed start is reported as it failed; a failed write
/// after a successful start must stop the server again and is reported.
pub open spec fn enable_outcome(start: AppResult<ApiStatus>, persist: AppResult<()>) -> (bool, AppResult<ApiStatus>) {
    match start {
        Err(e) => (false, Err(e)),
        Ok(status) => match persist {
            Ok(()) => (false, Ok(status)),
            Err(e) => (true, Err(e)),
        },
    }
}

/// Decides the end of an enable: whether to stop the server again, and the result.
pub fn enable_decision(start: AppResult<ApiStatus>, persist: AppResult<()>) -> (r: (bool, AppResult<ApiStatus>))
    ensures
        r == enable_outcome(start, persist),
{
    match start {
        Err(e) => (false, Err(e)),
        Ok(status) => match persist {
            Ok(()) => (false, Ok(status)),
            Err(e) => (true, Err(e)),
        },
    }
}

/// Decides the end of a startup. A disabled API stays off and `idle` is
/// reported; an enabled one reports how its start went, except that when the
/// start failed and switching the setting off failed too, the combined
/// failure is reported.
pub fn startup_decision(
    enabled: bool,
    idle: ApiStatus,
    start: AppResult<ApiStatus>,
    disable_after_failure: AppResult<()>,
) -> (r: AppResult<ApiStatus>)
    ensures
        !enabled ==> r == Ok::<ApiStatus, AppError>(idle),
        enabled && start is Ok ==> r == start,
        enabled && start is Err && disable_after_failure is Ok ==> r == start,
        enabled && start is Err && disable_after_failure is Err ==> (r matches Err(AppError::Internal(m))
            && m@ == "API startup and settings recovery both failed"@),
{
    if !enabled {
        return Ok(idle);
    }
    match start {
        Ok(status) => Ok(status),
        Err(e) => match disable_after_failure {
            Ok(()) => Err(e),
            Err(_) => Err(startup_recovery_failed()),
        },
    }
}

}
