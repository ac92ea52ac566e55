//! The cancellation signal's wire protocol.
//!
//! The cancellation signal is a kernel wakeup object watched alongside the
//! sockets.  Its protocol is byte-level: writing eight bytes that encode a
//! nonzero value marks it readable, and it stays readable (it is monotonic;
//! the reactor drains it without un-signalling).  These functions fix the
//! bytes written and recognise a drained payload, so the producer and the
//! reactor agree on the protocol.

use vstd::prelude::*;

verus! {

/// The payload the host writes to trip the signal: eight bytes encoding the
/// value one, least significant byte first.
pub open spec fn spec_signal_bytes() -> Seq<u8> {
    seq![1u8, 0u8, 0u8, 0u8, 0u8, 0u8, 0u8, 0u8]
}

/// Is `payload` a well-formed trip of the signal: eight bytes, not all zero?
pub open spec fn spec_is_signal(payload: Seq<u8>) -> bool {
    payload.len() == 8 && exists|i: int| 0 <= i < 8 && payload[i] != 0
}

/// The eight bytes the host writes to the wakeup object to request a stop.
pub fn signal_bytes() -> (r: Vec<u8>)
    ensures
        r@ == spec_signal_bytes(),
        spec_is_signal(r@),
{
    let mut r: Vec<u8> = Vec::new();
    r.push(1u8);
    let mut i: usize = 0;
    while i < 7
        invariant
            i <= 7,
            r@.len() == i + 1,
            r@[0] == 1u8,
            forall|k: int| 1 <= k < r@.len() ==> r@[k] == 0u8,
        decreases 7 - i,
    {
        r.push(0u8);
        i += 1;
    }
    proof {
        assert(r@ =~= spec_signal_bytes());
        assert(r@[0] != 0);
    }
    r
}

/// Recognises a drained payload as a trip of the signal: exactly the
/// well-formed eight-byte payloads that encode a nonzero value.
pub fn is_signal_payload(payload: &Vec<u8>) -> (r: bool)
    ensures
        r == spec_is_signal(payload@),
{
    if payload.len() != 8 {
        return false;
    }
    let mut i: usize = 0;
    while i < 8
        invariant
            i <= 8,
            payload@.len() == 8,
            forall|k: int| 0 <= k < i ==> payload@[k] == 0u8,
        decreases 8 - i,
    {
        if payload[i] != 0 {
            return true;
        }
        i += 1;
    }
    false
}

} // verus!
