//! A single-threaded, readiness-driven TCP reactor, modelled and verified.
//!
//! The reactor owns a listening socket, a cancellation wakeup descriptor and a
//! table of open client connections.  An event loop (outside this crate) waits
//! for readiness on the watched descriptors, performs the socket system calls,
//! and feeds the outcomes to the [`reactor::Reactor`] state machine, which
//! decides every state change and every lifecycle notification.  The machine
//! keeps a ghost history of the notifications it has ordered, and its
//! invariant ties that history to the connection table: a connection is in the
//! table exactly when it has been announced and not yet closed.

pub mod events;
pub mod logmsg;
pub mod logroute;
pub mod reactor;
pub mod signal;
pub mod status;
pub mod table;
pub mod trace;
