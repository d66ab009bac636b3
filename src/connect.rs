use vstd::prelude::*;

use crate::endpoint::Endpoint;

verus! {

/// Opens a stream connection from a local endpoint (port `0`: any free
/// port) to a remote one, giving up after a timeout.
#[derive(Clone, Copy, Debug, PartialEq, Eq, Structural)]
pub struct Connect {
    pub from: Endpoint,
    pub to: Endpoint,
    pub timeout_ms: u64,
}

impl Connect {
    pub fn new(from: Endpoint, to: Endpoint, timeout_ms: u64) -> (r: Connect)
        ensures
            r.from == from,
            r.to == to,
            r.timeout_ms == timeout_ms,
    {
        Connect { from, to, timeout_ms }
    }

    pub fn from(&self) -> (r: &Endpoint)
        ensures
            *r == self.from,
    {
        &self.from
    }

    pub fn to(&self) -> (r: &Endpoint)
        ensures
            *r == self.to,
    {
        &self.to
    }

    pub fn timeout_ms(&self) -> (r: u64)
        ensures
            r == self.timeout_ms,
    {
        self.timeout_ms
    }
}

} // verus!
