use vstd::prelude::*;

use crate::endpoint::Endpoint;
use crate::event::copy_bytes;

verus! {

/// How a payload travels: over the stream connection to the destination, or
/// as a datagram.
#[derive(Clone, Copy, Debug, PartialEq, Eq, Structural)]
pub enum SendMode {
    Unicast,
    Broadcast,
}

/// Sends a payload from one endpoint to another.
#[derive(Clone, Debug)]
pub struct Send {
    pub mode: SendMode,
    pub from: Endpoint,
    pub to: Endpoint,
    pub buffer: Vec<u8>,
}

impl Send {
    pub fn new(mode: SendMode, from: Endpoint, to: Endpoint, buffer: Vec<u8>) -> (r: Send)
        ensures
            r.mode == mode,
            r.from == from,
            r.to == to,
            r.buffer@ == buffer@,
    {
        Send { mode, from, to, buffer }
    }

    pub fn mode(&self) -> (r: SendMode)
        ensures
            r == self.mode,
    {
        self.mode
    }

    pub fn from(&self) -> (r: &Endpoint)
        ensures
            *r == self.from,
    {
        &self.from
    }

    pub fn to(&self) -> (r: &Endpoint)
        ensures
            *r == self.to,
    {
        &self.to
    }

    pub fn buffer(&self) -> (r: &[u8])
        ensures
            r@ == self.buffer@,
    {
        self.buffer.as_slice()
    }

    /// A copy of the payload.
    pub fn payload(&self) -> (r: Vec<u8>)
        ensures
            r@ == self.buffer@,
    {
        copy_bytes(self.buffer.as_slice())
    }
}

} // verus!
