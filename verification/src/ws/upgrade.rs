//! Whether a request is upgraded to a WebSocket.
use axum::http::StatusCode;
use vstd::prelude::*;

verus! {

/// What becomes of a request for an upgrade.
#[derive(Debug)]
pub enum UpgradeDecision {
    /// Upgrade the connection and hand it to the service.
    Upgrade,
    /// Answer with this status; the connection is not upgraded.
    Reject(StatusCode),
}

/// Decides on a request for an upgrade, given what the application's validator said about
/// the user and the topic: a request that the validator refuses is answered with the
/// validator's status code, and only the others are upgraded.
pub fn upgrade_handler(validation_result: Result<(), StatusCode>) -> (decision: UpgradeDecision)
    ensures
        decision == match validation_result {
            Ok(()) => UpgradeDecision::Upgrade,
            Err(status_code) => UpgradeDecision::Reject(status_code),
        },
{
    match validation_result {
        Ok(()) => UpgradeDecision::Upgrade,
        Err(status_code) => UpgradeDecision::Reject(status_code),
    }
}

} // verus!
