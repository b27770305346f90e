//! What one connection attempt came to, and the status that is reported for it.

use crate::target::Target;
use vstd::prelude::*;

verus! {

/// The seconds that one connection attempt may take.
pub const PROBE_DEADLINE_SECONDS: u64 = 3;

/// The status of an endpoint. There is no fifth.
#[derive(Clone, Copy, Debug, PartialEq, Eq, Structural)]
pub enum ConnectionStatus {
    Open,
    Refused,
    Timeout,
    Unreachable,
}

/// Why a connection attempt failed, as far as the status depends on it.
#[derive(Clone, Copy, Debug, PartialEq, Eq, Structural)]
pub enum ConnectFailure {
    /// The peer refused the connection.
    ConnectionRefused,
    /// No route to the host.
    HostUnreachable,
    /// No route to the network.
    NetworkUnreachable,
    /// Any other failure.
    Other,
}

/// How one connection attempt ended. Exactly one of these happens.
#[derive(Clone, Copy, Debug, PartialEq, Eq, Structural)]
pub enum ProbeOutcome {
    /// The deadline passed before the attempt ended.
    DeadlineElapsed,
    /// The connection was made.
    Connected,
    /// The attempt ended with a failure.
    Failed(ConnectFailure),
}

/// The status for an outcome. A failure that is neither a refusal nor an
/// unreachable host or network counts as a timeout.
pub open spec fn status_of(outcome: ProbeOutcome) -> ConnectionStatus {
    match outcome {
        ProbeOutcome::DeadlineElapsed => ConnectionStatus::Timeout,
        ProbeOutcome::Connected => ConnectionStatus::Open,
        ProbeOutcome::Failed(ConnectFailure::ConnectionRefused) => ConnectionStatus::Refused,
        ProbeOutcome::Failed(ConnectFailure::HostUnreachable) => ConnectionStatus::Unreachable,
        ProbeOutcome::Failed(ConnectFailure::NetworkUnreachable) => ConnectionStatus::Unreachable,
        ProbeOutcome::Failed(ConnectFailure::Other) => ConnectionStatus::Timeout,
    }
}

/// Classifies an outcome.
pub fn classify(outcome: ProbeOutcome) -> (status: ConnectionStatus)
    ensures
        status == status_of(outcome),
{
    match outcome {
        ProbeOutcome::DeadlineElapsed => ConnectionStatus::Timeout,
        ProbeOutcome::Connected => ConnectionStatus::Open,
        ProbeOutcome::Failed(failure) => match failure {
            ConnectFailure::ConnectionRefused => ConnectionStatus::Refused,
            ConnectFailure::HostUnreachable | ConnectFailure::NetworkUnreachable => {
                ConnectionStatus::Unreachable
            },
            ConnectFailure::Other => ConnectionStatus::Timeout,
        },
    }
}

/// The result of probing one target.
#[derive(Clone, Copy, Debug, PartialEq, Eq, Structural)]
pub struct ScanResult {
    pub endpoint: Target,
    pub status: ConnectionStatus,
}

/// The result for `target`, whose one connection attempt ended as `outcome`.
pub fn check_target(target: Target, outcome: ProbeOutcome) -> (result: ScanResult)
    ensures
        result == (ScanResult { endpoint: target, status: status_of(outcome) }),
{
    ScanResult { endpoint: target, status: classify(outcome) }
}

} // verus!
