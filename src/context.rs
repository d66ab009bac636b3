use vstd::prelude::*;

use crate::action::ActionError;
use crate::endpoint::Endpoint;
use crate::event::{copy_bytes, ConnectEvent, ReceiveEvent, SendEvent};
use crate::send::{Send, SendMode};
use crate::table::SocketTable;
use crate::wait::WaitEvent;

verus! {

/// Where a send goes, as the socket table decides it.
pub enum SendRoute<S> {
    /// Over this stream connection.
    Stream(S),
    /// As a datagram.
    Datagram,
    /// Nowhere: a unicast send whose destination has no connection.
    NoConnection,
}

/// The cause that a unicast send to an endpoint without a connection fails with.
pub open spec fn no_connection_message() -> Seq<char> {
    "No stream connected to the destination"@
}

/// Whether `e` records `bytes` read at `instant` on the way from `from` to `to`.
pub open spec fn records_receive(
    e: ReceiveEvent,
    instant: u64,
    from: Endpoint,
    to: Endpoint,
    bytes: Seq<u8>,
) -> bool {
    e.instant == instant && e.from == from && e.to == to && e.buffer@ == bytes
}

/// Whether `e` records `send` as completed at `instant`.
pub open spec fn records_send(e: SendEvent, instant: u64, send: Send) -> bool {
    e.instant == instant && e.from == send.from && e.to == send.to && e.buffer@ == send.buffer@
}

/// What a node shares between its script and its listeners: the socket
/// table and the three append-only event logs.
pub struct NodeContext<S> {
    pub tcp_streams: SocketTable<S>,
    pub receive_events: Vec<ReceiveEvent>,
    pub send_events: Vec<SendEvent>,
    pub connect_events: Vec<ConnectEvent>,
}

impl<S> NodeContext<S> {
    pub open spec fn wf(&self) -> bool {
        self.tcp_streams.wf()
    }

    /// `self` is `before` once a connection whose stream is keyed by `remote`
    /// was stored and its event, from `from` to `to` at `instant`, logged.
    pub open spec fn after_connection(
        &self,
        before: NodeContext<S>,
        instant: u64,
        from: Endpoint,
        to: Endpoint,
        remote: Endpoint,
        stream: S,
    ) -> bool {
        &&& self.wf()
        &&& self.tcp_streams@ == before.tcp_streams@.insert(remote, stream)
        &&& self.tcp_streams.has_single_entry(remote)
        &&& self.connect_events@ == before.connect_events@.push(
            ConnectEvent { instant, from, to },
        )
        &&& self.receive_events@ == before.receive_events@
        &&& self.send_events@ == before.send_events@
    }

    /// Where `send` goes with this socket table.
    pub open spec fn route_of(&self, send: Send) -> SendRoute<S> {
        match send.mode {
            SendMode::Broadcast => SendRoute::Datagram,
            SendMode::Unicast => if self.tcp_streams@.contains_key(send.to) {
                SendRoute::Stream(self.tcp_streams@[send.to])
            } else {
                SendRoute::NoConnection
            },
        }
    }

    /// An empty context.
    pub fn new() -> (r: NodeContext<S>)
        ensures
            r.wf(),
            r.tcp_streams@ == Map::<Endpoint, S>::empty(),
            r.receive_events@.len() == 0,
            r.send_events@.len() == 0,
            r.connect_events@.len() == 0,
    {
        NodeContext {
            tcp_streams: SocketTable::new(),
            receive_events: Vec::new(),
            send_events: Vec::new(),
            connect_events: Vec::new(),
        }
    }

    /// Logs a received message.
    pub fn record_receive(&mut self, event: ReceiveEvent)
        requires
            old(self).wf(),
        ensures
            final(self).wf(),
            final(self).receive_events@ == old(self).receive_events@.push(event),
            final(self).tcp_streams == old(self).tcp_streams,
            final(self).send_events@ == old(self).send_events@,
            final(self).connect_events@ == old(self).connect_events@,
    {
        self.receive_events.push(event);
    }

    /// Logs the bytes of one read from the stream from `from` to `to`, and
    /// says whether the reader goes on: a read of no bytes means that the
    /// peer closed the stream, and is not logged.
    pub fn record_read(&mut self, instant: u64, from: Endpoint, to: Endpoint, bytes: &[u8]) -> (r:
        bool)
        requires
            old(self).wf(),
        ensures
            r == (bytes@.len() > 0),
            final(self).wf(),
            r ==> final(self).receive_events@.len() == old(self).receive_events@.len() + 1
                && final(self).receive_events@.drop_last() == old(self).receive_events@
                && records_receive(final(self).receive_events@.last(), instant, from, to, bytes@),
            !r ==> final(self).receive_events@ == old(self).receive_events@,
            final(self).tcp_streams == old(self).tcp_streams,
            final(self).send_events@ == old(self).send_events@,
            final(self).connect_events@ == old(self).connect_events@,
    {
        if bytes.len() == 0 {
            return false;
        }
        let event = ReceiveEvent { instant, from, to, buffer: copy_bytes(bytes) };
        self.receive_events.push(event);
        assert(self.receive_events@.drop_last() =~= old(self).receive_events@);
        true
    }

    /// Stores the stream of an outbound connection from `local` to `remote`,
    /// keyed by `remote`, and logs the connection. Hands back the stream that
    /// the table held for `remote` before, if any.
    pub fn connection_established(
        &mut self,
        instant: u64,
        local: Endpoint,
        remote: Endpoint,
        stream: S,
    ) -> (r: Option<S>)
        requires
            old(self).wf(),
        ensures
            final(self).after_connection(*old(self), instant, local, remote, remote, stream),
            match r {
                Some(s) => old(self).tcp_streams@.contains_key(remote) && s == old(
                    self,
                ).tcp_streams@[remote],
                None => !old(self).tcp_streams@.contains_key(remote),
            },
    {
        let previous = self.tcp_streams.insert(remote, stream);
        self.connect_events.push(ConnectEvent { instant, from: local, to: remote });
        previous
    }

    /// Stores the stream of an inbound connection from `remote` to `local`,
    /// keyed by `remote`, and logs the connection. Hands back the stream that
    /// the table held for `remote` before, if any.
    pub fn connection_accepted(
        &mut self,
        instant: u64,
        remote: Endpoint,
        local: Endpoint,
        stream: S,
    ) -> (r: Option<S>)
        requires
            old(self).wf(),
        ensures
            final(self).after_connection(*old(self), instant, remote, local, remote, stream),
            match r {
                Some(s) => old(self).tcp_streams@.contains_key(remote) && s == old(
                    self,
                ).tcp_streams@[remote],
                None => !old(self).tcp_streams@.contains_key(remote),
            },
    {
        let previous = self.tcp_streams.insert(remote, stream);
        self.connect_events.push(ConnectEvent { instant, from: remote, to: local });
        previous
    }

    /// Decides where `send` goes: the stream to its destination for a unicast
    /// send, a datagram for a broadcast one. A unicast send to a destination
    /// without a connection fails; nothing is connected implicitly.
    pub fn route_send(&self, send: &Send) -> (r: Result<Option<&S>, ActionError>)
        requires
            self.wf(),
        ensures
            match r {
                Ok(Some(s)) => self.route_of(*send) == SendRoute::Stream(*s),
                Ok(None) => self.route_of(*send) == SendRoute::<S>::Datagram,
                Err(e) => self.route_of(*send) == SendRoute::<S>::NoConnection && (match e {
                    ActionError::SendError(m) => m@ == no_connection_message(),
                    _ => false,
                }),
            },
    {
        match send.mode {
            SendMode::Broadcast => Ok(None),
            SendMode::Unicast => match self.tcp_streams.get(&send.to) {
                Some(s) => Ok(Some(s)),
                None => Err(ActionError::SendError("No stream connected to the destination".to_owned())),
            },
        }
    }

    /// Completes `send` once its payload went out, or failed to, at `instant`:
    /// a success is logged, a failure becomes a send error with its cause.
    pub fn finish_send(&mut self, send: &Send, instant: u64, outcome: Result<(), String>) -> (r:
        Result<(), ActionError>)
        requires
            old(self).wf(),
        ensures
            final(self).wf(),
            final(self).tcp_streams == old(self).tcp_streams,
            final(self).receive_events@ == old(self).receive_events@,
            final(self).connect_events@ == old(self).connect_events@,
            match outcome {
                Ok(()) => r is Ok && final(self).send_events@.len() == old(self).send_events@.len()
                    + 1 && final(self).send_events@.drop_last() == old(self).send_events@
                    && records_send(final(self).send_events@.last(), instant, *send),
                Err(cause) => r == Err::<(), ActionError>(ActionError::SendError(cause))
                    && final(self).send_events@ == old(self).send_events@,
            },
    {
        match outcome {
            Ok(()) => {
                let event = SendEvent {
                    instant,
                    from: send.from,
                    to: send.to,
                    buffer: send.payload(),
                };
                self.send_events.push(event);
                assert(self.send_events@.drop_last() =~= old(self).send_events@);
                Ok(())
            },
            Err(cause) => Err(ActionError::SendError(cause)),
        }
    }

    /// Takes the stream to `target` out of the table, to be shut down.
    pub fn disconnect(&mut self, target: &Endpoint) -> (r: Result<S, ActionError>)
        requires
            old(self).wf(),
        ensures
            final(self).wf(),
            final(self).tcp_streams@ == old(self).tcp_streams@.remove(*target),
            final(self).receive_events@ == old(self).receive_events@,
            final(self).send_events@ == old(self).send_events@,
            final(self).connect_events@ == old(self).connect_events@,
            match r {
                Ok(s) => old(self).tcp_streams@.contains_key(*target) && s == old(
                    self,
                ).tcp_streams@[*target],
                Err(e) => !old(self).tcp_streams@.contains_key(*target) && e
                    == ActionError::DisconnectError,
            },
    {
        match self.tcp_streams.remove(target) {
            Some(s) => Ok(s),
            None => Err(ActionError::DisconnectError),
        }
    }

    /// Whether a wait for `event` that began at `since` is over.
    pub fn wait_satisfied(&self, event: &WaitEvent, since: u64) -> (r: bool)
        ensures
            r == event.satisfied_by(since, self.connect_events@, self.receive_events@),
    {
        event.is_satisfied(since, self.connect_events.as_slice(), self.receive_events.as_slice())
    }
}

/// A connection, once established, stands in the socket table as the one
/// entry for its remote endpoint, and a later unicast send to that endpoint
/// goes over its stream without connecting again.
pub proof fn lemma_connection_serves_unicast<S>(
    before: NodeContext<S>,
    after: NodeContext<S>,
    instant: u64,
    local: Endpoint,
    remote: Endpoint,
    stream: S,
    send: Send,
)
    requires
        before.wf(),
        after.after_connection(before, instant, local, remote, remote, stream),
        send.mode == SendMode::Unicast,
        send.to == remote,
    ensures
        after.tcp_streams.has_single_entry(remote),
        after.route_of(send) == SendRoute::Stream(stream),
{
}

/// A unicast send to an endpoint that has no entry in the socket table has
/// no route: it fails with the no-connection cause, and since deciding the
/// route leaves the context as it is, no send is logged.
pub proof fn lemma_unicast_needs_connection<S>(ctx: NodeContext<S>, send: Send)
    requires
        ctx.wf(),
        send.mode == SendMode::Unicast,
        !ctx.tcp_streams@.contains_key(send.to),
    ensures
        ctx.route_of(send) == SendRoute::<S>::NoConnection,
{
}

} // verus!
