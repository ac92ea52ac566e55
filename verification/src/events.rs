//! Lifecycle notifications.
//!
//! The reactor reports three kinds of event for a connection: it was accepted,
//! it delivered bytes, it went away.  [`Lifecycle`] is the mathematical form
//! used in the reactor's ghost history; [`HandlerCall`] is the executable form
//! the event loop dispatches to the caller-supplied handlers.

use vstd::prelude::*;

verus! {

/// One lifecycle notification, as the reactor's ghost history records it.
///
/// `fd` is the accepted socket's descriptor, which identifies the connection
/// while it is open.  `ip` and `port` are the peer's IPv4 address and TCP
/// port, both already converted to host byte order at the boundary.
pub enum Lifecycle {
    Connect { fd: i32, ip: u32, port: u16 },
    Data { fd: i32, bytes: Seq<u8> },
    Close { fd: i32 },
}

impl Lifecycle {
    /// The descriptor this notification concerns.
    pub open spec fn fd(self) -> i32 {
        match self {
            Lifecycle::Connect { fd, .. } => fd,
            Lifecycle::Data { fd, .. } => fd,
            Lifecycle::Close { fd } => fd,
        }
    }
}

/// One handler invocation the event loop must perform, in the order returned.
#[derive(Debug, PartialEq, Eq)]
pub enum HandlerCall {
    Connect { fd: i32, ip: u32, port: u16 },
    Data { fd: i32, bytes: Vec<u8> },
    Close { fd: i32 },
}

impl View for HandlerCall {
    type V = Lifecycle;

    open spec fn view(&self) -> Lifecycle {
        match self {
            HandlerCall::Connect { fd, ip, port } => (Lifecycle::Connect {
                fd: *fd,
                ip: *ip,
                port: *port,
            }),
            HandlerCall::Data { fd, bytes } => (Lifecycle::Data { fd: *fd, bytes: bytes@ }),
            HandlerCall::Close { fd } => (Lifecycle::Close { fd: *fd }),
        }
    }
}

} // verus!
