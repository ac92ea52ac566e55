//! Exit statuses, the error taxonomy, and how each error propagates.

use vstd::prelude::*;

verus! {

/// How a run of the reactor ended.
#[derive(Clone, Copy, Debug, PartialEq, Eq, Structural)]
pub enum ExitStatus {
    /// The cancellation signal was observed; every connection was closed and
    /// the listener released.
    Stopped,
    /// The listening socket could not be bound or put to listening; nothing
    /// was accepted and no handler ran.
    BindFailed,
    /// The readiness wait itself failed unrecoverably.
    Fatal,
}

/// Where the reactor stands.
#[derive(Clone, Copy, Debug, PartialEq, Eq, Structural)]
pub enum Phase {
    /// Created; the listener is not bound yet.
    Binding,
    /// Bound and watching; connections may come and go.
    Running,
    /// Finished with the given status; no further notification is issued.
    Done { status: ExitStatus },
}

/// The errors the reactor distinguishes.
#[derive(Clone, Copy, Debug, PartialEq, Eq, Structural)]
pub enum ReactorError {
    /// Binding or listening failed; fatal, returned before any handler runs.
    BindFailed,
    /// One accept failed transiently (say, the descriptor table was full);
    /// the reactor skips it and keeps serving.
    AcceptTransient,
    /// A read on one connection failed; that connection is closed, the
    /// reactor keeps serving.
    ReadError,
    /// The peer ended the connection; it is closed, the reactor keeps
    /// serving.
    PeerClosed,
    /// The readiness wait failed unrecoverably; the whole reactor stops.
    MultiplexerFatal,
    /// The cancellation descriptor could not be created or registered; fatal
    /// at setup time.
    CancellationUnavailable,
}

/// Errors that end the whole reactor rather than one connection.
pub open spec fn spec_is_fatal(e: ReactorError) -> bool {
    e is BindFailed || e is MultiplexerFatal || e is CancellationUnavailable
}

/// Errors whose whole effect is to close the one connection they concern.
pub open spec fn spec_closes_connection(e: ReactorError) -> bool {
    e is ReadError || e is PeerClosed
}

/// Propagation policy: does `e` end the reactor?  Exactly the setup-time and
/// multiplexer-core errors do; per-connection errors and transient accept
/// failures never do.
pub fn is_fatal(e: ReactorError) -> (r: bool)
    ensures
        r == spec_is_fatal(e),
{
    match e {
        ReactorError::BindFailed => true,
        ReactorError::MultiplexerFatal => true,
        ReactorError::CancellationUnavailable => true,
        ReactorError::AcceptTransient => false,
        ReactorError::ReadError => false,
        ReactorError::PeerClosed => false,
    }
}

/// Propagation policy: is `e` contained as one connection's close?  Exactly
/// the per-connection read outcomes are.
pub fn closes_connection(e: ReactorError) -> (r: bool)
    ensures
        r == spec_closes_connection(e),
{
    match e {
        ReactorError::ReadError => true,
        ReactorError::PeerClosed => true,
        _ => false,
    }
}

/// The process exit code a status maps to.
pub open spec fn spec_exit_code(status: ExitStatus) -> i32 {
    match status {
        ExitStatus::Stopped => 0i32,
        ExitStatus::BindFailed => 1i32,
        ExitStatus::Fatal => 2i32,
    }
}

/// Maps a finished run to its process exit code: zero exactly on a clean,
/// requested stop; distinct nonzero codes for the two fatal ends.
pub fn exit_code(status: ExitStatus) -> (r: i32)
    ensures
        r == spec_exit_code(status),
        (r == 0) <==> status == ExitStatus::Stopped,
{
    match status {
        ExitStatus::Stopped => 0,
        ExitStatus::BindFailed => 1,
        ExitStatus::Fatal => 2,
    }
}

} // verus!
