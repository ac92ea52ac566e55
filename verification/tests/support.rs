use puki::logmsg::{close_line, connect_line, data_line_prefix, fmt_ipv4, fmt_u32};
use puki::logroute::{console_line, level_label, route_for, LogLevel, LogRoute, SyslogSeverity};
use puki::signal::{is_signal_payload, signal_bytes};
use puki::status::{closes_connection, exit_code, is_fatal, ExitStatus, ReactorError};

#[test]
fn exit_codes_reflect_the_ending() {
    assert_eq!(exit_code(ExitStatus::Stopped), 0);
    assert_eq!(exit_code(ExitStatus::BindFailed), 1);
    assert_eq!(exit_code(ExitStatus::Fatal), 2);
}

#[test]
fn only_setup_and_multiplexer_errors_are_fatal() {
    assert!(is_fatal(ReactorError::BindFailed));
    assert!(is_fatal(ReactorError::MultiplexerFatal));
    assert!(is_fatal(ReactorError::CancellationUnavailable));
    assert!(!is_fatal(ReactorError::AcceptTransient));
    assert!(!is_fatal(ReactorError::ReadError));
    assert!(!is_fatal(ReactorError::PeerClosed));
}

#[test]
fn only_read_outcomes_close_a_connection() {
    assert!(closes_connection(ReactorError::ReadError));
    assert!(closes_connection(ReactorError::PeerClosed));
    assert!(!closes_connection(ReactorError::AcceptTransient));
    assert!(!closes_connection(ReactorError::BindFailed));
}

#[test]
fn signal_payload_is_eight_bytes_nonzero() {
    let bytes = signal_bytes();
    assert_eq!(bytes, vec![1u8, 0, 0, 0, 0, 0, 0, 0]);
    assert!(is_signal_payload(&bytes));
}

#[test]
fn signal_recognition_rejects_malformed_payloads() {
    assert!(!is_signal_payload(&vec![0u8; 8]));
    assert!(!is_signal_payload(&vec![1u8; 4]));
    assert!(!is_signal_payload(&Vec::new()));
    assert!(is_signal_payload(&vec![0, 0, 0, 0, 0, 0, 0, 9]));
}

#[test]
fn decimal_formatting_is_exact() {
    assert_eq!(fmt_u32(0), "0".as_bytes().to_vec());
    assert_eq!(fmt_u32(8080), "8080".as_bytes().to_vec());
    assert_eq!(fmt_u32(4294967295), "4294967295".as_bytes().to_vec());
}

#[test]
fn dotted_quad_is_exact() {
    assert_eq!(fmt_ipv4(0x7F000001), "127.0.0.1".as_bytes().to_vec());
    assert_eq!(fmt_ipv4(0), "0.0.0.0".as_bytes().to_vec());
    assert_eq!(fmt_ipv4(0xFFFFFFFF), "255.255.255.255".as_bytes().to_vec());
}

#[test]
fn connect_line_matches_the_observed_format() {
    assert_eq!(
        connect_line(5, 0x0A000001, 8080),
        "fd=5, addr=10.0.0.1:8080".as_bytes().to_vec()
    );
}

#[test]
fn close_line_matches_the_observed_format() {
    assert_eq!(close_line(12), "connection closed: fd=12".as_bytes().to_vec());
}

#[test]
fn data_line_prefix_matches_the_observed_format() {
    assert_eq!(
        data_line_prefix(7),
        "Received data: fd=7, data=".as_bytes().to_vec()
    );
}

#[test]
fn console_route_takes_every_level() {
    assert_eq!(route_for(true, LogLevel::Error), LogRoute::Stdout);
    assert_eq!(route_for(true, LogLevel::Trace), LogRoute::Stdout);
}

#[test]
fn syslog_route_maps_severities() {
    assert_eq!(
        route_for(false, LogLevel::Error),
        LogRoute::Syslog { severity: SyslogSeverity::Error }
    );
    assert_eq!(
        route_for(false, LogLevel::Warn),
        LogRoute::Syslog { severity: SyslogSeverity::Warning }
    );
    assert_eq!(
        route_for(false, LogLevel::Info),
        LogRoute::Syslog { severity: SyslogSeverity::Info }
    );
    assert_eq!(
        route_for(false, LogLevel::Debug),
        LogRoute::Syslog { severity: SyslogSeverity::Debug }
    );
    assert_eq!(
        route_for(false, LogLevel::Trace),
        LogRoute::Syslog { severity: SyslogSeverity::Debug }
    );
}

#[test]
fn console_line_is_level_colon_message() {
    assert_eq!(level_label(LogLevel::Info), "INFO".as_bytes().to_vec());
    let msg = "Starting...".as_bytes().to_vec();
    assert_eq!(
        console_line(LogLevel::Info, &msg),
        "INFO:Starting...".as_bytes().to_vec()
    );
}
