use port_scanner::error::ScanError;
use port_scanner::probe::{ConnectionStatus, ScanResult};
use port_scanner::report::{
    failure_message, result_message, terminal_line, PrefixColor, Stream, VerbosityLevel,
    VERBOSITY_LEVEL,
};
use port_scanner::target::Target;

fn result(status: ConnectionStatus) -> ScanResult {
    ScanResult { endpoint: Target { address: 0x0A00_0001, port: 443 }, status }
}

#[test]
fn levels() {
    assert_eq!(VerbosityLevel::INFO, 0);
    assert_eq!(VerbosityLevel::WARN, 1);
    assert_eq!(VerbosityLevel::ERROR, 2);
    assert_eq!(VerbosityLevel::DEBUG, 3);
    assert_eq!(VERBOSITY_LEVEL, 2);
}

#[test]
fn information_goes_to_the_output_stream() {
    let line = terminal_line(VerbosityLevel::INFO).unwrap();
    assert_eq!(line.prefix, "[INFO]");
    assert_eq!(line.color, PrefixColor::White);
    assert_eq!(line.stream, Some(Stream::Stdout));
}

#[test]
fn warnings_go_to_the_output_stream() {
    let line = terminal_line(VerbosityLevel::WARN).unwrap();
    assert_eq!(line.prefix, "[WARN]");
    assert_eq!(line.color, PrefixColor::Yellow);
    assert_eq!(line.stream, Some(Stream::Stdout));
}

#[test]
fn errors_go_to_the_error_stream() {
    let line = terminal_line(VerbosityLevel::ERROR).unwrap();
    assert_eq!(line.prefix, "[ERROR]");
    assert_eq!(line.color, PrefixColor::Red);
    assert_eq!(line.stream, Some(Stream::Stderr));
}

#[test]
fn debug_lines_are_not_shown() {
    let line = terminal_line(VerbosityLevel::DEBUG).unwrap();
    assert_eq!(line.prefix, "[DEBUG]");
    assert_eq!(line.color, PrefixColor::Green);
    assert_eq!(line.stream, None);
}

#[test]
fn number_that_is_no_level() {
    for level in [4u8, 5, 100, 255] {
        assert!(matches!(
            terminal_line(level),
            Err(ScanError::InvalidVerbosityLevel)
        ));
    }
}

#[test]
fn message_of_an_open_endpoint() {
    let message = result_message(&result(ConnectionStatus::Open));
    assert_eq!(message.text, "10.0.0.1:443 - Open");
    assert_eq!(message.level, VerbosityLevel::INFO);
}

#[test]
fn message_of_a_refusing_endpoint() {
    let message = result_message(&result(ConnectionStatus::Refused));
    assert_eq!(message.text, "10.0.0.1:443 - Refused");
    assert_eq!(message.level, VerbosityLevel::WARN);
}

#[test]
fn message_of_a_timeout() {
    let message = result_message(&result(ConnectionStatus::Timeout));
    assert_eq!(message.text, "10.0.0.1:443 - Timeout");
    assert_eq!(message.level, VerbosityLevel::ERROR);
}

#[test]
fn unreachable_endpoint_is_shown_as_a_timeout() {
    let message = result_message(&result(ConnectionStatus::Unreachable));
    assert_eq!(message.text, "10.0.0.1:443 - Timeout");
    assert_eq!(message.level, VerbosityLevel::ERROR);
}

#[test]
fn message_of_a_failed_task() {
    let message = failure_message("task 7 panicked");
    assert_eq!(message.text, "An error has occured: task 7 panicked");
    assert_eq!(message.level, VerbosityLevel::ERROR);
    assert_eq!(failure_message("").text, "An error has occured: ");
}
