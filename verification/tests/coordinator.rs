use port_scanner::coordinator::{
    Completion, CoordinatorError, ScanCoordinator, ScanEvent, TaskFailure,
};
use port_scanner::probe::{ConnectFailure, ConnectionStatus, ProbeOutcome, ScanResult};
use port_scanner::target::Target;

fn target(n: u32) -> Target {
    Target { address: 0x0A00_0000 + n, port: 80 }
}

fn mixed(n: usize) -> Completion {
    match n % 6 {
        0 => Completion::Probed(ProbeOutcome::Connected),
        1 => Completion::Probed(ProbeOutcome::Failed(ConnectFailure::ConnectionRefused)),
        2 => Completion::Probed(ProbeOutcome::DeadlineElapsed),
        3 => Completion::Failed(TaskFailure::Panicked),
        4 => Completion::Probed(ProbeOutcome::Failed(ConnectFailure::HostUnreachable)),
        _ => Completion::Failed(TaskFailure::Cancelled),
    }
}

fn target_of(event: &ScanEvent) -> Target {
    match event {
        ScanEvent::Result(result) => result.endpoint,
        ScanEvent::TaskFailed(target, _) => *target,
    }
}

#[test]
fn scan_without_targets_is_finished() {
    let coordinator = ScanCoordinator::new();
    assert!(coordinator.is_finished());
    assert_eq!(coordinator.submitted(), 0);
    assert_eq!(coordinator.emitted(), 0);
}

#[test]
fn tasks_are_numbered_as_they_are_submitted() {
    let mut coordinator = ScanCoordinator::new();
    assert_eq!(coordinator.submit(target(1)), 0);
    assert_eq!(coordinator.submit(target(2)), 1);
    assert_eq!(coordinator.submit(target(3)), 2);
    assert_eq!(coordinator.submitted(), 3);
    assert_eq!(coordinator.emitted(), 0);
    assert!(!coordinator.is_finished());
}

#[test]
fn completion_gives_the_classified_result() {
    let mut coordinator = ScanCoordinator::new();
    let task = coordinator.submit(target(9));
    assert_eq!(
        coordinator.complete(task, Completion::Probed(ProbeOutcome::Connected)),
        Ok(ScanEvent::Result(ScanResult {
            endpoint: target(9),
            status: ConnectionStatus::Open,
        }))
    );
    assert!(coordinator.is_finished());
}

#[test]
fn failed_task_gives_a_failure_event_and_the_scan_goes_on() {
    let mut coordinator = ScanCoordinator::new();
    let first = coordinator.submit(target(1));
    let second = coordinator.submit(target(2));
    assert_eq!(
        coordinator.complete(first, Completion::Failed(TaskFailure::Panicked)),
        Ok(ScanEvent::TaskFailed(target(1), TaskFailure::Panicked))
    );
    assert!(!coordinator.is_finished());
    assert_eq!(
        coordinator.complete(
            second,
            Completion::Probed(ProbeOutcome::Failed(ConnectFailure::ConnectionRefused))
        ),
        Ok(ScanEvent::Result(ScanResult {
            endpoint: target(2),
            status: ConnectionStatus::Refused,
        }))
    );
    assert!(coordinator.is_finished());
}

#[test]
fn second_completion_of_a_task_gives_no_event() {
    let mut coordinator = ScanCoordinator::new();
    let task = coordinator.submit(target(1));
    coordinator.submit(target(2));
    assert!(coordinator
        .complete(task, Completion::Probed(ProbeOutcome::Connected))
        .is_ok());
    assert_eq!(
        coordinator.complete(task, Completion::Probed(ProbeOutcome::DeadlineElapsed)),
        Err(CoordinatorError::AlreadyReported)
    );
    assert_eq!(coordinator.emitted(), 1);
    assert!(!coordinator.is_finished());
}

#[test]
fn unknown_task_gives_no_event() {
    let mut coordinator = ScanCoordinator::new();
    coordinator.submit(target(1));
    assert_eq!(
        coordinator.complete(1, Completion::Probed(ProbeOutcome::Connected)),
        Err(CoordinatorError::UnknownTask)
    );
    assert_eq!(
        coordinator.complete(usize::MAX, Completion::Failed(TaskFailure::Cancelled)),
        Err(CoordinatorError::UnknownTask)
    );
    assert_eq!(coordinator.emitted(), 0);
}

#[test]
fn batch_in_any_order_gives_one_event_for_each_target() {
    let n = 12usize;
    let orders: Vec<Vec<usize>> = vec![
        (0..n).collect(),
        (0..n).rev().collect(),
        (0..n).map(|i| (i * 5 + 3) % n).collect(),
        (0..n).map(|i| (i * 7 + 11) % n).collect(),
    ];
    for order in orders {
        let mut coordinator = ScanCoordinator::new();
        for i in 0..n {
            assert_eq!(coordinator.submit(target(i as u32)), i);
        }
        let mut events = Vec::new();
        for (seen, task) in order.iter().enumerate() {
            assert!(!coordinator.is_finished());
            assert_eq!(coordinator.emitted(), seen);
            events.push(coordinator.complete(*task, mixed(*task)).unwrap());
        }
        assert!(coordinator.is_finished());
        assert_eq!(events.len(), n);
        assert_eq!(coordinator.emitted(), n);
        for i in 0..n {
            let of_target = events
                .iter()
                .filter(|event| target_of(event) == target(i as u32))
                .count();
            assert_eq!(of_target, 1);
        }
        for (event, task) in events.iter().zip(order.iter()) {
            assert_eq!(target_of(event), target(*task as u32));
        }
        for task in 0..n {
            assert_eq!(
                coordinator.complete(task, mixed(task)),
                Err(CoordinatorError::AlreadyReported)
            );
        }
        assert_eq!(coordinator.emitted(), n);
    }
}

#[test]
fn targets_submitted_after_completions_are_waited_for() {
    let mut coordinator = ScanCoordinator::new();
    let first = coordinator.submit(target(1));
    assert!(coordinator
        .complete(first, Completion::Probed(ProbeOutcome::Connected))
        .is_ok());
    assert!(coordinator.is_finished());
    let second = coordinator.submit(target(2));
    assert!(!coordinator.is_finished());
    assert_eq!(
        coordinator.complete(second, Completion::Failed(TaskFailure::Cancelled)),
        Ok(ScanEvent::TaskFailed(target(2), TaskFailure::Cancelled))
    );
    assert!(coordinator.is_finished());
}
