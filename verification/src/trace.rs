//! The reactor's notification history, and the laws it obeys.
//!
//! A history is a sequence of [`Lifecycle`] notifications.  [`wf_trace`] says
//! the sequence is well-bracketed per descriptor: a connect only for a
//! descriptor not currently open, data and close only for one that is.
//! [`open_after`] is the set of descriptors open once the whole history has
//! happened.  From well-bracketing alone follow the ordering laws at the end
//! of this file: every data or close notification sits inside a session opened
//! by exactly one earlier connect, sessions for one descriptor never overlap,
//! and a close ends its session for good.

use vstd::prelude::*;

use crate::events::Lifecycle;

verus! {

/// Does `e` announce descriptor `fd`?
pub open spec fn is_connect_for(e: Lifecycle, fd: i32) -> bool {
    e is Connect && e.fd() == fd
}

/// Does `e` deliver bytes for descriptor `fd`?
pub open spec fn is_data_for(e: Lifecycle, fd: i32) -> bool {
    e is Data && e.fd() == fd
}

/// Does `e` close descriptor `fd`?
pub open spec fn is_close_for(e: Lifecycle, fd: i32) -> bool {
    e is Close && e.fd() == fd
}

/// The bytes `e` delivers, if any.
pub open spec fn data_payload(e: Lifecycle) -> Seq<u8> {
    match e {
        Lifecycle::Data { bytes, .. } => bytes,
        _ => Seq::empty(),
    }
}

/// The descriptors still open once every notification in `tr` has happened:
/// announced by a connect and not closed since.
pub open spec fn open_after(tr: Seq<Lifecycle>) -> Set<i32>
    decreases tr.len(),
{
    if tr.len() == 0 {
        Set::empty()
    } else {
        let prev = open_after(tr.drop_last());
        match tr.last() {
            Lifecycle::Connect { fd, .. } => prev.insert(fd),
            Lifecycle::Data { .. } => prev,
            Lifecycle::Close { fd } => prev.remove(fd),
        }
    }
}

/// Well-bracketing: each notification is legal given the descriptors open
/// just before it.  A connect needs its descriptor closed (descriptor numbers
/// are unique among open connections); data and close need it open.
pub open spec fn wf_trace(tr: Seq<Lifecycle>) -> bool
    decreases tr.len(),
{
    tr.len() == 0 || {
        let prev = tr.drop_last();
        wf_trace(prev) && match tr.last() {
            Lifecycle::Connect { fd, .. } => !open_after(prev).contains(fd),
            Lifecycle::Data { fd, .. } => open_after(prev).contains(fd),
            Lifecycle::Close { fd } => open_after(prev).contains(fd),
        }
    }
}

/// The concatenation of every payload delivered for `fd`, in delivery order.
pub open spec fn bytes_for(tr: Seq<Lifecycle>, fd: i32) -> Seq<u8>
    decreases tr.len(),
{
    if tr.len() == 0 {
        Seq::empty()
    } else {
        bytes_for(tr.drop_last(), fd) + if is_data_for(tr.last(), fd) {
            data_payload(tr.last())
        } else {
            Seq::empty()
        }
    }
}

/// Appending one notification changes the open set in the evident way.
pub proof fn lemma_open_after_push(tr: Seq<Lifecycle>, e: Lifecycle)
    ensures
        open_after(tr.push(e)) == (match e {
            Lifecycle::Connect { fd, .. } => open_after(tr).insert(fd),
            Lifecycle::Data { .. } => open_after(tr),
            Lifecycle::Close { fd } => open_after(tr).remove(fd),
        }),
{
    assert(tr.push(e).drop_last() =~= tr);
    assert(tr.push(e).last() == e);
}

/// Appending a notification legal for the current open set keeps the history
/// well-bracketed.
pub proof fn lemma_wf_trace_push(tr: Seq<Lifecycle>, e: Lifecycle)
    requires
        wf_trace(tr),
        match e {
            Lifecycle::Connect { fd, .. } => !open_after(tr).contains(fd),
            Lifecycle::Data { fd, .. } => open_after(tr).contains(fd),
            Lifecycle::Close { fd } => open_after(tr).contains(fd),
        },
    ensures
        wf_trace(tr.push(e)),
{
    assert(tr.push(e).drop_last() =~= tr);
    assert(tr.push(e).last() == e);
}

/// Appending a notification extends one descriptor's delivered bytes and
/// leaves every other descriptor's untouched.
pub proof fn lemma_bytes_for_push(tr: Seq<Lifecycle>, e: Lifecycle, fd: i32)
    ensures
        bytes_for(tr.push(e), fd) == bytes_for(tr, fd) + if is_data_for(e, fd) {
            data_payload(e)
        } else {
            Seq::<u8>::empty()
        },
{
    assert(tr.push(e).drop_last() =~= tr);
    assert(tr.push(e).last() == e);
}

/// A prefix of a well-bracketed history is well-bracketed.
pub proof fn lemma_wf_trace_prefix(tr: Seq<Lifecycle>, i: int)
    requires
        wf_trace(tr),
        0 <= i <= tr.len(),
    ensures
        wf_trace(tr.take(i)),
    decreases tr.len(),
{
    if i == tr.len() {
        assert(tr.take(i) =~= tr);
    } else {
        let prev = tr.drop_last();
        assert(wf_trace(prev));
        assert(prev.take(i) =~= tr.take(i));
        lemma_wf_trace_prefix(prev, i);
    }
}

/// A data or close notification finds its descriptor open just before it.
pub proof fn lemma_event_sees_open(tr: Seq<Lifecycle>, i: int)
    requires
        wf_trace(tr),
        0 <= i < tr.len(),
        !(tr[i] is Connect),
    ensures
        open_after(tr.take(i)).contains(tr[i].fd()),
{
    lemma_wf_trace_prefix(tr, i + 1);
    assert(tr.take(i + 1).drop_last() =~= tr.take(i));
    assert(tr.take(i + 1).last() == tr[i]);
}

/// A descriptor open after a well-bracketed history was announced by a
/// connect after which it was neither closed nor announced again.
pub proof fn lemma_open_has_connect(tr: Seq<Lifecycle>, fd: i32) -> (j: int)
    requires
        wf_trace(tr),
        open_after(tr).contains(fd),
    ensures
        0 <= j < tr.len(),
        is_connect_for(tr[j], fd),
        forall|k: int| j < k < tr.len() ==> !is_connect_for(tr[k], fd) && !is_close_for(tr[k], fd),
    decreases tr.len(),
{
    let prev = tr.drop_last();
    let e = tr.last();
    if is_connect_for(e, fd) {
        tr.len() - 1
    } else {
        assert(open_after(prev).contains(fd));
        let j = lemma_open_has_connect(prev, fd);
        assert(tr[j] == prev[j]);
        assert forall|k: int| j < k < tr.len() implies !is_connect_for(tr[k], fd)
            && !is_close_for(tr[k], fd) by {
            if k < tr.len() - 1 {
                assert(tr[k] == prev[k]);
            } else {
                assert(tr[k] == e);
            }
        }
        j
    }
}

/// If a descriptor is closed at one point of the history and open at a later
/// one, a connect for it stands in between.
pub proof fn lemma_reopen_has_connect(tr: Seq<Lifecycle>, fd: i32, m: int, n: int) -> (j: int)
    requires
        0 <= m <= n <= tr.len(),
        !open_after(tr.take(m)).contains(fd),
        open_after(tr.take(n)).contains(fd),
    ensures
        m <= j < n,
        is_connect_for(tr[j], fd),
    decreases n - m,
{
    assert(m < n);
    assert(tr.take(n).drop_last() =~= tr.take(n - 1));
    assert(tr.take(n).last() == tr[n - 1]);
    if open_after(tr.take(n - 1)).contains(fd) {
        lemma_reopen_has_connect(tr, fd, m, n - 1)
    } else {
        assert(is_connect_for(tr[n - 1], fd));
        n - 1
    }
}

/// If a descriptor is open at one point of the history and closed at a later
/// one, a close for it stands in between.
pub proof fn lemma_drop_has_close(tr: Seq<Lifecycle>, fd: i32, m: int, n: int) -> (j: int)
    requires
        0 <= m <= n <= tr.len(),
        open_after(tr.take(m)).contains(fd),
        !open_after(tr.take(n)).contains(fd),
    ensures
        m <= j < n,
        is_close_for(tr[j], fd),
    decreases n - m,
{
    assert(m < n);
    assert(tr.take(n).drop_last() =~= tr.take(n - 1));
    assert(tr.take(n).last() == tr[n - 1]);
    if !open_after(tr.take(n - 1)).contains(fd) {
        lemma_drop_has_close(tr, fd, m, n - 1)
    } else {
        assert(is_close_for(tr[n - 1], fd));
        n - 1
    }
}

/// Law: every data or close notification is preceded by the connect that
/// opened its session, and between that connect and the notification stands
/// no close and no second connect for the descriptor.  So a session's
/// connect comes first, is unique in it, and precedes all its data.
pub proof fn lemma_connect_precedes(tr: Seq<Lifecycle>, i: int) -> (j: int)
    requires
        wf_trace(tr),
        0 <= i < tr.len(),
        !(tr[i] is Connect),
    ensures
        0 <= j < i,
        is_connect_for(tr[j], tr[i].fd()),
        forall|k: int| j < k < i ==> !is_connect_for(tr[k], tr[i].fd()) && !is_close_for(
            tr[k],
            tr[i].fd(),
        ),
{
    let fd = tr[i].fd();
    lemma_event_sees_open(tr, i);
    lemma_wf_trace_prefix(tr, i);
    let j = lemma_open_has_connect(tr.take(i), fd);
    assert(tr.take(i)[j] == tr[j]);
    assert forall|k: int| j < k < i implies !is_connect_for(tr[k], fd) && !is_close_for(
        tr[k],
        fd,
    ) by {
        assert(tr.take(i)[k] == tr[k]);
    }
    j
}

/// Law: a close ends its session.  Any later event for the same descriptor
/// belongs to a new session: a fresh connect stands strictly between the
/// close and that event.  In particular a session sees at most one close.
pub proof fn lemma_close_separates(tr: Seq<Lifecycle>, i: int, k: int) -> (j: int)
    requires
        wf_trace(tr),
        0 <= i < k < tr.len(),
        tr[i] is Close,
        !(tr[k] is Connect),
        tr[k].fd() == tr[i].fd(),
    ensures
        i < j < k,
        is_connect_for(tr[j], tr[i].fd()),
{
    let fd = tr[i].fd();
    lemma_wf_trace_prefix(tr, i + 1);
    assert(tr.take(i + 1).drop_last() =~= tr.take(i));
    assert(tr.take(i + 1).last() == tr[i]);
    assert(!open_after(tr.take(i + 1)).contains(fd));
    lemma_event_sees_open(tr, k);
    lemma_reopen_has_connect(tr, fd, i + 1, k)
}

/// Law: two connects for one descriptor never share a session: a close for
/// the descriptor stands strictly between them.  So each session has exactly
/// one connect, and with the law above exactly one close at most.
pub proof fn lemma_connects_separated(tr: Seq<Lifecycle>, i: int, k: int) -> (j: int)
    requires
        wf_trace(tr),
        0 <= i < k < tr.len(),
        tr[i] is Connect,
        tr[k] is Connect,
        tr[k].fd() == tr[i].fd(),
    ensures
        i < j < k,
        is_close_for(tr[j], tr[i].fd()),
{
    let fd = tr[i].fd();
    lemma_wf_trace_prefix(tr, i + 1);
    assert(tr.take(i + 1).drop_last() =~= tr.take(i));
    assert(tr.take(i + 1).last() == tr[i]);
    assert(open_after(tr.take(i + 1)).contains(fd));
    lemma_wf_trace_prefix(tr, k + 1);
    assert(tr.take(k + 1).drop_last() =~= tr.take(k));
    assert(tr.take(k + 1).last() == tr[k]);
    assert(!open_after(tr.take(k)).contains(fd));
    lemma_drop_has_close(tr, fd, i + 1, k)
}

} // verus!
