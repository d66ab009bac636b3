use vstd::prelude::*;

use crate::endpoint::Endpoint;

verus! {

/// An inbound stream connection that was accepted, or an outbound one that
/// was established.
///
/// `instant` is read from the node's monotonic clock, in nanoseconds since a
/// base that the node fixes once.
#[derive(Clone, Copy, Debug, PartialEq, Eq, Structural)]
pub struct ConnectEvent {
    pub instant: u64,
    pub from: Endpoint,
    pub to: Endpoint,
}

/// The bytes of one successful read from a stream connection, or of one
/// datagram. One message of a peer may arrive as several such events.
#[derive(Clone, Debug)]
pub struct ReceiveEvent {
    pub instant: u64,
    pub from: Endpoint,
    pub to: Endpoint,
    pub buffer: Vec<u8>,
}

/// A payload that was sent in full.
#[derive(Clone, Debug)]
pub struct SendEvent {
    pub instant: u64,
    pub from: Endpoint,
    pub to: Endpoint,
    pub buffer: Vec<u8>,
}

/// Whether two byte strings are equal.
pub(crate) fn bytes_equal(a: &[u8], b: &[u8]) -> (r: bool)
    ensures
        r == (a@ == b@),
{
    if a.len() != b.len() {
        return false;
    }
    let mut i: usize = 0;
    while i < a.len()
        invariant
            a@.len() == b@.len(),
            0 <= i <= a@.len(),
            a@.take(i as int) == b@.take(i as int),
        decreases a.len() - i,
    {
        if a[i] != b[i] {
            assert(a@[i as int] != b@[i as int]);
            return false;
        }
        assert(a@.take(i + 1) == a@.take(i as int).push(a@[i as int]));
        assert(b@.take(i + 1) == b@.take(i as int).push(b@[i as int]));
        i = i + 1;
    }
    assert(a@ == a@.take(a@.len() as int));
    assert(b@ == b@.take(b@.len() as int));
    true
}

/// A copy of `bytes`.
pub(crate) fn copy_bytes(bytes: &[u8]) -> (r: Vec<u8>)
    ensures
        r@ == bytes@,
{
    let mut out: Vec<u8> = Vec::new();
    let mut i: usize = 0;
    while i < bytes.len()
        invariant
            0 <= i <= bytes@.len(),
            out@ == bytes@.take(i as int),
        decreases bytes.len() - i,
    {
        out.push(bytes[i]);
        assert(bytes@.take(i + 1) == bytes@.take(i as int).push(bytes@[i as int]));
        i = i + 1;
    }
    assert(bytes@ == bytes@.take(bytes@.len() as int));
    out
}

} // verus!
