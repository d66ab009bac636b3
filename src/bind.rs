use vstd::prelude::*;

use crate::endpoint::Endpoint;

verus! {

/// Listens for stream connections on an endpoint, and for datagrams on a
/// fixed port of the same address.
#[derive(Clone, Copy, Debug, PartialEq, Eq, Structural)]
pub struct Bind {
    pub to: Endpoint,
}

/// The port on which a bound node receives datagrams.
pub const DATAGRAM_PORT: u16 = 49999;

/// The size of the buffer that one read or one datagram fills at most.
pub const RECEIVE_BUFFER_LEN: usize = 1024;

/// How many pending connections a listener queues.
pub const LISTEN_BACKLOG: u32 = 1024;

impl Bind {
    pub fn new(to: Endpoint) -> (r: Bind)
        ensures
            r.to == to,
    {
        Bind { to }
    }

    /// The endpoint that the stream listener takes.
    pub fn to(&self) -> (r: &Endpoint)
        ensures
            *r == self.to,
    {
        &self.to
    }

    /// The endpoint on which datagrams are received: the address of the
    /// stream listener, on the datagram port.
    pub fn datagram_endpoint(&self) -> (r: Endpoint)
        ensures
            r.ip == self.to.ip,
            r.port == DATAGRAM_PORT,
    {
        Endpoint { ip: self.to.ip, port: DATAGRAM_PORT }
    }
}

} // verus!
