//! Scripted network-behaviour nodes: actions, event logs, a socket table and
//! the predicates that let a script wait for what other nodes do.
mod action;
mod bind;
mod connect;
mod context;
mod endpoint;
mod event;
mod node;
mod script;
mod send;
mod table;
mod wait;

pub use action::{Action, ActionError, Sleep};
pub use bind::{Bind, DATAGRAM_PORT, LISTEN_BACKLOG, RECEIVE_BUFFER_LEN};
pub use connect::Connect;
pub use context::{
    lemma_connection_serves_unicast, lemma_unicast_needs_connection, NodeContext, SendRoute,
};
pub use endpoint::{Endpoint, IpAddress};
pub use event::{ConnectEvent, ReceiveEvent, SendEvent};
pub use node::Node;
pub use script::{ConnectionSpec, Disconnect, MessageMatch, OrderType, Protocol};
pub use send::{Send, SendMode};
pub use table::SocketTable;
pub use wait::{
    connect_match, lemma_connect_ignores_stale_events, lemma_no_event_reuse,
    lemma_receive_ignores_stale_events, lemma_satisfied_list_fits, lemma_wildcard_matching,
    receive_exact_match,
    ConnectPredicate, MessagesPredicate, ReceivePredicate, Wait, WaitEvent,
};
