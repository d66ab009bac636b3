use vstd::prelude::*;

use crate::endpoint::Endpoint;

verus! {

/// A transport protocol.
#[derive(Clone, Copy, Debug, PartialEq, Eq, Structural)]
pub enum Protocol {
    Tcp,
    Udp,
}

/// Whether a list of expected messages must arrive in its order.
#[derive(Clone, Copy, Debug, PartialEq, Eq, Structural)]
pub enum OrderType {
    Unordered,
    Ordered,
}

/// Closes the stream connection to a remote endpoint.
#[derive(Clone, Copy, Debug, PartialEq, Eq, Structural)]
pub struct Disconnect {
    pub target: Endpoint,
}

impl Disconnect {
    pub fn new(target: Endpoint) -> (r: Disconnect)
        ensures
            r.target == target,
    {
        Disconnect { target }
    }

    pub fn target(&self) -> (r: &Endpoint)
        ensures
            *r == self.target,
    {
        &self.target
    }
}

/// A connection between two endpoints over a protocol.
#[derive(Clone, Copy, Debug, PartialEq, Eq, Structural)]
pub struct ConnectionSpec {
    pub from: Endpoint,
    pub to: Endpoint,
    pub protocol: Protocol,
}

impl ConnectionSpec {
    pub fn new(from: Endpoint, to: Endpoint, protocol: Protocol) -> (r: ConnectionSpec)
        ensures
            r.from == from,
            r.to == to,
            r.protocol == protocol,
    {
        ConnectionSpec { from, to, protocol }
    }

    pub fn from(&self) -> (r: &Endpoint)
        ensures
            *r == self.from,
    {
        &self.from
    }

    pub fn to(&self) -> (r: &Endpoint)
        ensures
            *r == self.to,
    {
        &self.to
    }

    pub fn protocol(&self) -> (r: &Protocol)
        ensures
            *r == self.protocol,
    {
        &self.protocol
    }
}

/// A message between two endpoints over a protocol, with its bytes.
#[derive(Clone, Debug)]
pub struct MessageMatch {
    pub from: Endpoint,
    pub to: Endpoint,
    pub protocol: Protocol,
    pub buffer: Vec<u8>,
}

impl MessageMatch {
    pub fn new(from: Endpoint, to: Endpoint, protocol: Protocol, buffer: Vec<u8>) -> (r:
        MessageMatch)
        ensures
            r.from == from,
            r.to == to,
            r.protocol == protocol,
            r.buffer@ == buffer@,
    {
        MessageMatch { from, to, protocol, buffer }
    }

    pub fn from(&self) -> (r: &Endpoint)
        ensures
            *r == self.from,
    {
        &self.from
    }

    pub fn to(&self) -> (r: &Endpoint)
        ensures
            *r == self.to,
    {
        &self.to
    }

    pub fn protocol(&self) -> (r: &Protocol)
        ensures
            *r == self.protocol,
    {
        &self.protocol
    }

    pub fn buffer(&self) -> (r: &[u8])
        ensures
            r@ == self.buffer@,
    {
        self.buffer.as_slice()
    }
}

} // verus!
