//! Where a log record goes, and in what shape.
//!
//! The host wires one logger that either prints to the console (interactive
//! runs) or forwards to the system log (daemon runs).  Which sink takes a
//! record, how a level maps to a system-log severity, and the console line's
//! shape are decisions, verified here; the sinks themselves — standard
//! output and the system-log connection — live with the host.

use vstd::prelude::*;

verus! {

/// A record's level, in descending severity.
#[derive(Clone, Copy, Debug, PartialEq, Eq, Structural)]
pub enum LogLevel {
    Error,
    Warn,
    Info,
    Debug,
    Trace,
}

/// The system-log severities the logger uses.
#[derive(Clone, Copy, Debug, PartialEq, Eq, Structural)]
pub enum SyslogSeverity {
    Error,
    Warning,
    Info,
    Debug,
}

/// The sink one record goes to.
#[derive(Clone, Copy, Debug, PartialEq, Eq, Structural)]
pub enum LogRoute {
    /// Print the console line on standard output.
    Stdout,
    /// Forward the message to the system log at the given severity.
    Syslog { severity: SyslogSeverity },
}

/// The system-log severity for a level: errors go as errors, warnings as
/// warnings, information as information, and both debug and trace as debug.
pub open spec fn spec_severity(level: LogLevel) -> SyslogSeverity {
    match level {
        LogLevel::Error => SyslogSeverity::Error,
        LogLevel::Warn => SyslogSeverity::Warning,
        LogLevel::Info => SyslogSeverity::Info,
        LogLevel::Debug => SyslogSeverity::Debug,
        LogLevel::Trace => SyslogSeverity::Debug,
    }
}

/// Every record is taken (no level is filtered here); with the console
/// enabled it is printed, otherwise it goes to the system log at the mapped
/// severity.
pub fn route_for(stdout_enabled: bool, level: LogLevel) -> (r: LogRoute)
    ensures
        stdout_enabled ==> r == LogRoute::Stdout,
        !stdout_enabled ==> r == (LogRoute::Syslog { severity: spec_severity(level) }),
{
    if stdout_enabled {
        LogRoute::Stdout
    } else {
        let severity = match level {
            LogLevel::Error => SyslogSeverity::Error,
            LogLevel::Warn => SyslogSeverity::Warning,
            LogLevel::Info => SyslogSeverity::Info,
            LogLevel::Debug => SyslogSeverity::Debug,
            LogLevel::Trace => SyslogSeverity::Debug,
        };
        LogRoute::Syslog { severity }
    }
}

/// A level's display name.
pub open spec fn spec_level_label(level: LogLevel) -> Seq<u8> {
    match level {
        LogLevel::Error => seq![69u8, 82u8, 82u8, 79u8, 82u8],
        LogLevel::Warn => seq![87u8, 65u8, 82u8, 78u8],
        LogLevel::Info => seq![73u8, 78u8, 70u8, 79u8],
        LogLevel::Debug => seq![68u8, 69u8, 66u8, 85u8, 71u8],
        LogLevel::Trace => seq![84u8, 82u8, 65u8, 67u8, 69u8],
    }
}

/// Writes a level's display name.
pub fn level_label(level: LogLevel) -> (r: Vec<u8>)
    ensures
        r@ == spec_level_label(level),
{
    let mut r: Vec<u8> = Vec::new();
    match level {
        LogLevel::Error => {
            r.push(69u8);
            r.push(82u8);
            r.push(82u8);
            r.push(79u8);
            r.push(82u8);
        },
        LogLevel::Warn => {
            r.push(87u8);
            r.push(65u8);
            r.push(82u8);
            r.push(78u8);
        },
        LogLevel::Info => {
            r.push(73u8);
            r.push(78u8);
            r.push(70u8);
            r.push(79u8);
        },
        LogLevel::Debug => {
            r.push(68u8);
            r.push(69u8);
            r.push(66u8);
            r.push(85u8);
            r.push(71u8);
        },
        LogLevel::Trace => {
            r.push(84u8);
            r.push(82u8);
            r.push(65u8);
            r.push(67u8);
            r.push(69u8);
        },
    }
    proof {
        assert(r@ =~= spec_level_label(level));
    }
    r
}

/// The console line for one record: the level's name, a colon, the message.
pub open spec fn spec_console_line(level: LogLevel, msg: Seq<u8>) -> Seq<u8> {
    spec_level_label(level) + seq![58u8] + msg
}

/// Writes the console line for one record.
pub fn console_line(level: LogLevel, msg: &Vec<u8>) -> (r: Vec<u8>)
    ensures
        r@ == spec_console_line(level, msg@),
{
    let mut r = level_label(level);
    r.push(58u8);
    r.extend_from_slice(msg.as_slice());
    proof {
        assert(r@ =~= spec_console_line(level, msg@));
    }
    r
}

} // verus!
