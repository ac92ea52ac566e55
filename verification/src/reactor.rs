//! The reactor state machine.
//!
//! The reactor decides, from its state and one readiness outcome at a time,
//! what changes and which lifecycle notifications the caller-supplied
//! handlers receive.  The event loop around it owns the blocking wait and the
//! socket calls; it reports each outcome here (a bind result, an accepted
//! client, bytes read, a peer gone, the cancellation signal, a failed wait)
//! and dispatches the returned [`HandlerCall`]s in order.
//!
//! The machine's invariant, [`Reactor::inv`], ties the ghost history of
//! ordered notifications to the connection table: the history is
//! well-bracketed and its open descriptors are exactly the table's.  On
//! planned shutdown — cancellation or a fatal wait error — every still-open
//! connection is closed with exactly one close notification, never two; so the
//! history ends with every session closed.

use vstd::prelude::*;

use crate::events::{HandlerCall, Lifecycle};
use crate::status::{ExitStatus, Phase};
use crate::table::ConnTable;
use crate::trace::{
    bytes_for, data_payload, is_close_for, is_connect_for, is_data_for, lemma_bytes_for_push,
    lemma_close_separates, lemma_connect_precedes, lemma_connects_separated,
    lemma_open_after_push, lemma_wf_trace_push, open_after, wf_trace,
};

verus! {

/// The notifications in `calls` as history entries, in order.
pub open spec fn views_of(calls: Seq<HandlerCall>) -> Seq<Lifecycle> {
    calls.map_values(|c: HandlerCall| c@)
}

/// The reactor: its phase, its open connections, and the ghost history of
/// every lifecycle notification it has ordered so far.
pub struct Reactor {
    /// Where the run stands.
    pub phase: Phase,
    /// The open-connection table.
    pub table: ConnTable,
    /// Every notification ordered so far, oldest first.
    pub history: Ghost<Seq<Lifecycle>>,
}

/// What both shutdown steps promise: the reactor finishes with `status`,
/// orders exactly one close for each connection open when the step ran
/// (and nothing else), and afterwards no connection is open.
pub open spec fn shutdown_post(
    pre: Reactor,
    post: Reactor,
    calls: Seq<HandlerCall>,
    status: ExitStatus,
) -> bool {
    &&& post.inv()
    &&& post.phase == (Phase::Done { status })
    &&& post.open_fds() == Set::<i32>::empty()
    &&& post.history@ == pre.history@ + views_of(calls)
    &&& calls.len() == pre.table.spec_len()
    &&& forall|i: int|
        0 <= i < calls.len() ==> calls[i] is Close && pre.open_fds().contains(#[trigger] calls[i]@.fd())
    &&& forall|i: int, j: int| 0 <= i < j < calls.len() ==> calls[i]@.fd() != calls[j]@.fd()
    &&& forall|x: i32|
        pre.open_fds().contains(x) ==> exists|i: int| 0 <= i < calls.len() && #[trigger] calls[i]@.fd() == x
}

impl Reactor {
    /// The descriptors of the connections now open.
    pub open spec fn open_fds(self) -> Set<i32> {
        self.table.fds()
    }

    /// The reactor's invariant: the table never holds two connections with
    /// one descriptor; the history is well-bracketed; a connection is in the
    /// table exactly when announced and not yet closed; before the bind no
    /// notification has happened; after the end none is pending.
    pub open spec fn inv(self) -> bool {
        &&& self.table.wf()
        &&& wf_trace(self.history@)
        &&& open_after(self.history@) == self.table.fds()
        &&& (self.phase is Binding ==> self.history@.len() == 0)
        &&& (self.phase is Done ==> self.table.fds() == Set::<i32>::empty())
    }

    /// A fresh reactor, about to bind its listener.  No connection is open
    /// and no notification has happened.
    pub fn new() -> (r: Reactor)
        ensures
            r.inv(),
            r.phase == Phase::Binding,
            r.history@ == Seq::<Lifecycle>::empty(),
            r.open_fds() == Set::<i32>::empty(),
    {
        let table = ConnTable::new();
        let r = Reactor { phase: Phase::Binding, table, history: Ghost(Seq::empty()) };
        proof {
            assert(open_after(r.history@) =~= Set::<i32>::empty());
        }
        r
    }

    /// The listener could not be bound or put to listening.  Fatal and
    /// immediate: the run ends as `BindFailed` and — the history being empty —
    /// no handler was or will be invoked.
    pub fn bind_failed(&mut self) -> (status: ExitStatus)
        requires
            old(self).inv(),
            old(self).phase is Binding,
        ensures
            final(self).inv(),
            status == ExitStatus::BindFailed,
            final(self).phase == (Phase::Done { status: ExitStatus::BindFailed }),
            final(self).history@ == old(self).history@,
            final(self).history@.len() == 0,
    {
        self.phase = Phase::Done { status: ExitStatus::BindFailed };
        proof {
            assert(open_after(self.history@) =~= Set::<i32>::empty());
        }
        ExitStatus::BindFailed
    }

    /// The listener is bound, listening, and registered together with the
    /// cancellation descriptor: the reactor is running.  Nothing has been
    /// accepted yet.
    pub fn bind_ok(&mut self)
        requires
            old(self).inv(),
            old(self).phase is Binding,
        ensures
            final(self).inv(),
            final(self).phase == Phase::Running,
            final(self).history@ == old(self).history@,
            final(self).history@.len() == 0,
            final(self).open_fds() == old(self).open_fds(),
    {
        self.phase = Phase::Running;
    }

    /// One client accepted, already set non-blocking, with its peer address
    /// in host byte order.  A fresh descriptor joins the table and its
    /// connect notification is ordered; a descriptor already open (which the
    /// operating system never delivers) is refused untouched.
    pub fn accept_ready(&mut self, fd: i32, ip: u32, port: u16) -> (call: Option<HandlerCall>)
        requires
            old(self).inv(),
            old(self).phase is Running,
        ensures
            final(self).inv(),
            final(self).phase == Phase::Running,
            !old(self).open_fds().contains(fd) ==> {
                &&& call == Some((HandlerCall::Connect { fd, ip, port }))
                &&& final(self).history@ == old(self).history@.push(
                    (Lifecycle::Connect { fd, ip, port }),
                )
                &&& final(self).open_fds() == old(self).open_fds().insert(fd)
            },
            forall|other: i32|
                #[trigger] bytes_for(final(self).history@, other) == bytes_for(
                    old(self).history@,
                    other,
                ),
            old(self).open_fds().contains(fd) ==> {
                &&& call is None
                &&& final(self).history@ == old(self).history@
                &&& final(self).open_fds() == old(self).open_fds()
            },
    {
        if self.table.contains_fd(fd) {
            None
        } else {
            let ghost e = Lifecycle::Connect { fd, ip, port };
            proof {
                lemma_wf_trace_push(self.history@, e);
                lemma_open_after_push(self.history@, e);
                let h0 = self.history@;
                assert forall|other: i32| #[trigger] bytes_for(h0.push(e), other) == bytes_for(
                    h0,
                    other,
                ) by {
                    lemma_bytes_for_push(h0, e, other);
                    assert(bytes_for(h0, other) + Seq::<u8>::empty() =~= bytes_for(h0, other));
                }
            }
            self.table.insert(fd, ip, port);
            self.history = Ghost(self.history@.push(e));
            Some(HandlerCall::Connect { fd, ip, port })
        }
    }

    /// One non-empty read from an open connection: its data notification is
    /// ordered, carrying exactly the bytes of this read — delivery
    /// boundaries are whatever the transport gave.  The connection's
    /// delivered bytes grow by exactly `data`; every other connection's are
    /// untouched.  An empty read or an unknown descriptor orders nothing.
    pub fn data_ready(&mut self, fd: i32, data: Vec<u8>) -> (call: Option<HandlerCall>)
        requires
            old(self).inv(),
            old(self).phase is Running,
        ensures
            final(self).inv(),
            final(self).phase == Phase::Running,
            final(self).open_fds() == old(self).open_fds(),
            old(self).open_fds().contains(fd) && data@.len() > 0 ==> {
                &&& call == Some((HandlerCall::Data { fd, bytes: data }))
                &&& final(self).history@ == old(self).history@.push(
                    (Lifecycle::Data { fd, bytes: data@ }),
                )
                &&& bytes_for(final(self).history@, fd) == bytes_for(old(self).history@, fd)
                    + data@
                &&& forall|other: i32|
                    other != fd ==> bytes_for(final(self).history@, other) == bytes_for(
                        old(self).history@,
                        other,
                    )
            },
            !(old(self).open_fds().contains(fd) && data@.len() > 0) ==> {
                &&& call is None
                &&& final(self).history@ == old(self).history@
            },
    {
        if data.len() == 0 {
            return None;
        }
        if !self.table.contains_fd(fd) {
            return None;
        }
        let ghost e = Lifecycle::Data { fd, bytes: data@ };
        let ghost h0 = self.history@;
        proof {
            lemma_wf_trace_push(h0, e);
            lemma_open_after_push(h0, e);
            lemma_bytes_for_push(h0, e, fd);
            assert(is_data_for(e, fd) && data_payload(e) == data@);
            assert forall|other: i32| other != fd implies bytes_for(h0.push(e), other)
                == bytes_for(h0, other) by {
                lemma_bytes_for_push(h0, e, other);
                assert(bytes_for(h0, other) + Seq::<u8>::empty() =~= bytes_for(h0, other));
            }
        }
        self.history = Ghost(h0.push(e));
        Some(HandlerCall::Data { fd, bytes: data })
    }

    /// One connection ended by its peer (end of stream) or by a read error.
    /// It leaves the table, its descriptor is to be deregistered and closed,
    /// and its close notification — the session's only one — is ordered.  An
    /// unknown descriptor orders nothing.
    pub fn client_gone(&mut self, fd: i32) -> (call: Option<HandlerCall>)
        requires
            old(self).inv(),
            old(self).phase is Running,
        ensures
            final(self).inv(),
            final(self).phase == Phase::Running,
            old(self).open_fds().contains(fd) ==> {
                &&& call == Some((HandlerCall::Close { fd }))
                &&& final(self).history@ == old(self).history@.push((Lifecycle::Close { fd }))
                &&& final(self).open_fds() == old(self).open_fds().remove(fd)
                &&& forall|other: i32|
                    #[trigger] bytes_for(final(self).history@, other) == bytes_for(
                        old(self).history@,
                        other,
                    )
            },
            !old(self).open_fds().contains(fd) ==> {
                &&& call is None
                &&& final(self).history@ == old(self).history@
                &&& final(self).open_fds() == old(self).open_fds()
            },
    {
        let ghost pre = *old(self);
        let was_open = self.table.remove(fd);
        if !was_open {
            proof {
                assert(self.table.fds() =~= pre.table.fds());
            }
            return None;
        }
        let ghost e = Lifecycle::Close { fd };
        let ghost h0 = self.history@;
        proof {
            lemma_wf_trace_push(h0, e);
            lemma_open_after_push(h0, e);
            assert forall|other: i32| #[trigger] bytes_for(h0.push(e), other) == bytes_for(
                h0,
                other,
            ) by {
                lemma_bytes_for_push(h0, e, other);
                assert(bytes_for(h0, other) + Seq::<u8>::empty() =~= bytes_for(h0, other));
            }
        }
        self.history = Ghost(h0.push(e));
        Some(HandlerCall::Close { fd })
    }

    /// The cancellation signal is readable: the reactor stops accepting,
    /// orders exactly one close for each still-open connection, and finishes
    /// as `Stopped`.  The caller then deregisters and closes every socket and
    /// returns from its loop — the signal is observed within one readiness
    /// cycle, and after these closes no notification follows.
    pub fn cancel_ready(&mut self) -> (calls: Vec<HandlerCall>)
        requires
            old(self).inv(),
            old(self).phase is Running,
        ensures
            shutdown_post(*old(self), *final(self), calls@, ExitStatus::Stopped),
    {
        self.shutdown(ExitStatus::Stopped)
    }

    /// The readiness wait failed unrecoverably (not an interruption, which
    /// the loop retries): the reactor orders the same per-connection closes
    /// as a planned stop and finishes as `Fatal`.
    pub fn wait_fatal(&mut self) -> (calls: Vec<HandlerCall>)
        requires
            old(self).inv(),
            old(self).phase is Running,
        ensures
            shutdown_post(*old(self), *final(self), calls@, ExitStatus::Fatal),
    {
        self.shutdown(ExitStatus::Fatal)
    }

    /// Empties the table, one close notification per open connection, and
    /// finishes with `status`.
    fn shutdown(&mut self, status: ExitStatus) -> (calls: Vec<HandlerCall>)
        requires
            old(self).inv(),
            old(self).phase is Running,
        ensures
            shutdown_post(*old(self), *final(self), calls@, status),
    {
        let ghost pre = *old(self);
        let mut calls: Vec<HandlerCall> = Vec::new();
        proof {
            assert(pre.history@ + views_of(calls@) =~= pre.history@);
        }
        while self.table.len() > 0
            invariant
                pre == *old(self),
                pre.inv(),
                self.table.wf(),
                wf_trace(self.history@),
                open_after(self.history@) == self.table.fds(),
                self.history@ == pre.history@ + views_of(calls@),
                calls@.len() + self.table.spec_len() == pre.table.spec_len(),
                forall|i: int|
                    0 <= i < calls@.len() ==> calls@[i] is Close && pre.open_fds().contains(
                        #[trigger] calls@[i]@.fd(),
                    ),
                forall|i: int|
                    0 <= i < calls@.len() ==> !self.table.fds().contains(
                        #[trigger] calls@[i]@.fd(),
                    ),
                forall|i: int, j: int|
                    0 <= i < j < calls@.len() ==> calls@[i]@.fd() != calls@[j]@.fd(),
                forall|x: i32|
                    self.table.fds().contains(x) ==> pre.open_fds().contains(x),
                forall|x: i32|
                    pre.open_fds().contains(x) ==> self.table.fds().contains(x) || exists|i: int|
                        0 <= i < calls@.len() && #[trigger] calls@[i]@.fd() == x,
            decreases self.table.spec_len(),
        {
            let ghost fds0 = self.table.fds();
            let popped = self.table.pop();
            match popped {
                Some(entry) => {
                    let ghost e = Lifecycle::Close { fd: entry.fd };
                    let ghost h0 = self.history@;
                    let ghost calls0 = calls@;
                    proof {
                        lemma_wf_trace_push(h0, e);
                        lemma_open_after_push(h0, e);
                    }
                    self.history = Ghost(h0.push(e));
                    let call = HandlerCall::Close { fd: entry.fd };
                    calls.push(call);
                    proof {
                        assert(views_of(calls@) =~= views_of(calls0).push(call@));
                        assert(self.history@ =~= pre.history@ + views_of(calls@));
                        assert forall|i: int, j: int|
                            0 <= i < j < calls@.len() implies calls@[i]@.fd()
                            != calls@[j]@.fd() by {
                            if j == calls@.len() - 1 {
                                assert(!fds0.contains(calls0[i]@.fd()));
                                assert(fds0.contains(entry.fd));
                            }
                        }
                        assert forall|x: i32|
                            pre.open_fds().contains(x) implies self.table.fds().contains(x)
                            || exists|i: int|
                            0 <= i < calls@.len() && #[trigger] calls@[i]@.fd() == x by {
                            if fds0.contains(x) {
                                if x == entry.fd {
                                    assert(calls@[calls@.len() - 1]@.fd() == x);
                                }
                            } else {
                                let i = choose|i: int|
                                    0 <= i < calls0.len() && #[trigger] calls0[i]@.fd() == x;
                                assert(calls@[i]@.fd() == x);
                            }
                        }
                    }
                },
                None => {
                    proof {
                        assert(false);
                    }
                },
            }
        }
        self.phase = Phase::Done { status };
        proof {
            self.table.lemma_len0_empty();
            assert(self.open_fds() == Set::<i32>::empty());
        }
        calls
    }
}

/// Law: in any reactor run, a data or close notification for a connection
/// is preceded by the connect that opened it, with no close and no second
/// connect for that descriptor in between — a connection's connect comes
/// first, and its data and close fall inside its own session.
pub proof fn lemma_run_connect_precedes(r: Reactor, i: int) -> (j: int)
    requires
        r.inv(),
        0 <= i < r.history@.len(),
        !(r.history@[i] is Connect),
    ensures
        0 <= j < i,
        is_connect_for(r.history@[j], r.history@[i].fd()),
        forall|k: int|
            j < k < i ==> !is_connect_for(r.history@[k], r.history@[i].fd()) && !is_close_for(
                r.history@[k],
                r.history@[i].fd(),
            ),
{
    lemma_connect_precedes(r.history@, i)
}

/// Law: in any reactor run a connection is closed exactly once: after its
/// close, any later event for the same descriptor belongs to a fresh
/// session, opened by a connect standing strictly in between.
pub proof fn lemma_run_close_ends_session(r: Reactor, i: int, k: int) -> (j: int)
    requires
        r.inv(),
        0 <= i < k < r.history@.len(),
        r.history@[i] is Close,
        !(r.history@[k] is Connect),
        r.history@[k].fd() == r.history@[i].fd(),
    ensures
        i < j < k,
        is_connect_for(r.history@[j], r.history@[i].fd()),
{
    lemma_close_separates(r.history@, i, k)
}

/// Law: in any reactor run a connection is announced exactly once: between
/// two connects for one descriptor a close for it stands, so each belongs
/// to a different session.
pub proof fn lemma_run_connect_unique(r: Reactor, i: int, k: int) -> (j: int)
    requires
        r.inv(),
        0 <= i < k < r.history@.len(),
        r.history@[i] is Connect,
        r.history@[k] is Connect,
        r.history@[k].fd() == r.history@[i].fd(),
    ensures
        i < j < k,
        is_close_for(r.history@[j], r.history@[i].fd()),
{
    lemma_connects_separated(r.history@, i, k)
}

} // verus!
