use port_scanner::probe::{
    check_target, classify, ConnectFailure, ConnectionStatus, ProbeOutcome, ScanResult,
    PROBE_DEADLINE_SECONDS,
};
use port_scanner::target::Target;

#[test]
fn made_connection_is_open() {
    assert_eq!(classify(ProbeOutcome::Connected), ConnectionStatus::Open);
}

#[test]
fn refused_connection_is_refused() {
    assert_eq!(
        classify(ProbeOutcome::Failed(ConnectFailure::ConnectionRefused)),
        ConnectionStatus::Refused
    );
}

#[test]
fn elapsed_deadline_is_a_timeout() {
    assert_eq!(classify(ProbeOutcome::DeadlineElapsed), ConnectionStatus::Timeout);
}

#[test]
fn unreachable_host_or_network_is_unreachable() {
    assert_eq!(
        classify(ProbeOutcome::Failed(ConnectFailure::HostUnreachable)),
        ConnectionStatus::Unreachable
    );
    assert_eq!(
        classify(ProbeOutcome::Failed(ConnectFailure::NetworkUnreachable)),
        ConnectionStatus::Unreachable
    );
}

#[test]
fn any_other_failure_is_a_timeout() {
    assert_eq!(
        classify(ProbeOutcome::Failed(ConnectFailure::Other)),
        ConnectionStatus::Timeout
    );
}

#[test]
fn deadline_is_three_seconds() {
    assert_eq!(PROBE_DEADLINE_SECONDS, 3);
}

#[test]
fn result_names_its_target() {
    let target = Target { address: 0x7F00_0001, port: 8080 };
    assert_eq!(
        check_target(target, ProbeOutcome::Connected),
        ScanResult { endpoint: target, status: ConnectionStatus::Open }
    );
    assert_eq!(
        check_target(target, ProbeOutcome::Failed(ConnectFailure::ConnectionRefused)),
        ScanResult { endpoint: target, status: ConnectionStatus::Refused }
    );
    assert_eq!(
        check_target(target, ProbeOutcome::DeadlineElapsed),
        ScanResult { endpoint: target, status: ConnectionStatus::Timeout }
    );
}
