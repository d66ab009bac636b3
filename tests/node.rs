use nseseq::{
    Action, ActionError, Bind, Connect, ConnectPredicate, ConnectionSpec, Disconnect, Endpoint,
    IpAddress, MessageMatch, Node, NodeContext, OrderType, Protocol, Send, SendMode, Sleep,
    SocketTable, Wait, WaitEvent, DATAGRAM_PORT,
};

fn local(port: u16) -> Endpoint {
    Endpoint::v4(127, 0, 0, 1, port)
}

#[test]
fn socket_table_keeps_one_entry_per_endpoint() {
    let mut table: SocketTable<u32> = SocketTable::new();
    assert_eq!(table.len(), 0);
    assert_eq!(table.insert(local(1), 10), None);
    assert_eq!(table.insert(local(2), 20), None);
    assert_eq!(table.insert(local(1), 11), Some(10));
    assert_eq!(table.len(), 2);
    assert_eq!(table.get(&local(1)), Some(&11));
    assert_eq!(table.remove(&local(1)), Some(11));
    assert_eq!(table.get(&local(1)), None);
    assert_eq!(table.remove(&local(1)), None);
    assert_eq!(table.len(), 1);
}

#[test]
fn connect_then_unicast_uses_the_stored_stream() {
    let mut ctx: NodeContext<u32> = NodeContext::new();
    let send = Send::new(SendMode::Unicast, local(3000), local(4000), vec![1, 2, 3, 4]);
    assert_eq!(ctx.route_send(&send), Err(ActionError::SendError("No stream connected to the destination".to_string())));
    assert_eq!(ctx.connection_established(7, local(50000), local(4000), 42), None);
    assert_eq!(ctx.tcp_streams.len(), 1);
    assert_eq!(ctx.connect_events.len(), 1);
    assert_eq!(ctx.connect_events[0].from, local(50000));
    assert_eq!(ctx.connect_events[0].to, local(4000));
    assert_eq!(ctx.connect_events[0].instant, 7);
    assert_eq!(ctx.route_send(&send), Ok(Some(&42)));
    assert_eq!(ctx.connection_established(8, local(50001), local(4000), 43), Some(42));
    assert_eq!(ctx.tcp_streams.len(), 1);
    assert_eq!(ctx.route_send(&send), Ok(Some(&43)));
}

#[test]
fn unicast_without_connection_fails_and_logs_nothing() {
    let mut ctx: NodeContext<u32> = NodeContext::new();
    let send = Send::new(SendMode::Unicast, local(3000), local(4000), vec![1]);
    let routed = ctx.route_send(&send);
    assert!(matches!(routed, Err(ActionError::SendError(_))));
    assert!(ctx.send_events.is_empty());
    let broadcast = Send::new(SendMode::Broadcast, local(0), Endpoint::v4(127, 0, 0, 255, DATAGRAM_PORT), vec![1]);
    assert_eq!(ctx.route_send(&broadcast), Ok(None));
    assert_eq!(ctx.finish_send(&broadcast, 3, Ok(())), Ok(()));
    assert_eq!(ctx.send_events.len(), 1);
    assert_eq!(ctx.send_events[0].buffer, vec![1]);
    assert_eq!(ctx.send_events[0].instant, 3);
    assert_eq!(
        ctx.finish_send(&broadcast, 4, Err("refused".to_string())),
        Err(ActionError::SendError("refused".to_string()))
    );
    assert_eq!(ctx.send_events.len(), 1);
}

#[test]
fn disconnect_takes_the_stream_out() {
    let mut ctx: NodeContext<u32> = NodeContext::new();
    ctx.connection_accepted(1, local(55555), local(3000), 5);
    assert_eq!(ctx.connect_events[0].from, local(55555));
    assert_eq!(ctx.connect_events[0].to, local(3000));
    let d = Disconnect::new(local(55555));
    assert_eq!(*d.target(), local(55555));
    assert_eq!(ctx.disconnect(d.target()), Ok(5));
    assert_eq!(ctx.disconnect(d.target()), Err(ActionError::DisconnectError));
    assert_eq!(ctx.tcp_streams.len(), 0);
}

#[test]
fn reads_are_logged_until_an_empty_one() {
    let mut ctx: NodeContext<u32> = NodeContext::new();
    assert!(ctx.record_read(5, local(4000), local(3000), &[1, 1]));
    assert!(!ctx.record_read(6, local(4000), local(3000), &[]));
    assert_eq!(ctx.receive_events.len(), 1);
    assert_eq!(ctx.receive_events[0].buffer, vec![1, 1]);
    assert_eq!(ctx.receive_events[0].from, local(4000));
}

#[test]
fn end_to_end_wildcard_wait_resolves_on_accept() {
    // node A binds 127.0.0.1:3000; node B connects from 127.0.0.1:4000
    let mut a: NodeContext<u32> = NodeContext::new();
    let wait = WaitEvent::Connection(ConnectPredicate::new(local(0), local(3000)));
    let since: u64 = 1_000;
    assert!(!a.wait_satisfied(&wait, since));
    a.connection_accepted(since + 500, local(4000), local(3000), 1);
    assert!(a.wait_satisfied(&wait, since));
    assert!(!a.wait_satisfied(&wait, since + 500));
}

#[test]
fn action_names_and_error_messages() {
    let bind = Bind::new(local(3000));
    assert_eq!(*bind.to(), local(3000));
    assert_eq!(bind.datagram_endpoint(), local(DATAGRAM_PORT));
    assert_eq!(Action::Bind(bind).name(), "BIND");
    let connect = Connect::new(local(0), local(4000), 1000);
    assert_eq!(connect.timeout_ms(), 1000);
    assert_eq!(*connect.from(), local(0));
    assert_eq!(*connect.to(), local(4000));
    assert_eq!(Action::Connect(connect).name(), "CONNECT");
    let send = Send::new(SendMode::Unicast, local(1), local(2), vec![9]);
    assert_eq!(send.buffer(), &[9]);
    assert_eq!(send.mode(), SendMode::Unicast);
    assert_eq!(Action::Send(send).name(), "SEND");
    assert_eq!(Action::Sleep(Sleep::new(5)).name(), "SLEEP");
    assert_eq!(Sleep::new(5).duration_ms(), 5);
    let wait = Wait::new(WaitEvent::Connection(ConnectPredicate::new(local(0), local(1))));
    assert_eq!(Action::Wait(wait).name(), "WAIT");
    assert_eq!(Action::Disconnect(Disconnect::new(local(1))).name(), "DISCONNECT");
    assert_eq!(ActionError::ConnectError("x".to_string()).message(), "Connection error");
    assert_eq!(ActionError::DisconnectError.message(), "Disconnection error");
    assert_eq!(ActionError::BindError.message(), "Bind error");
    assert_eq!(ActionError::SendError(String::new()).message(), "Send error");
    assert_eq!(ActionError::SleepError.message(), "Sleep error");
    assert_eq!(ActionError::WaitError.message(), "Wait error");
}

#[test]
fn node_runs_its_script_once() {
    let mut node = Node::new("test-node-1");
    assert_eq!(node.name(), "test-node-1");
    node.add_action(Action::Sleep(Sleep::new(1)));
    node.add_action(Action::Bind(Bind::new(local(3000))));
    let script = node.take_actions();
    assert_eq!(script.len(), 2);
    assert_eq!(script[0].name(), "SLEEP");
    assert_eq!(script[1].name(), "BIND");
    assert!(node.take_actions().is_empty());
}

#[test]
fn script_descriptions_keep_their_values() {
    let spec = ConnectionSpec::new(local(1), local(2), Protocol::Tcp);
    assert_eq!(*spec.from(), local(1));
    assert_eq!(*spec.to(), local(2));
    assert_eq!(*spec.protocol(), Protocol::Tcp);
    let m = MessageMatch::new(local(1), local(2), Protocol::Udp, vec![4, 5]);
    assert_eq!(*m.from(), local(1));
    assert_eq!(*m.to(), local(2));
    assert_eq!(*m.protocol(), Protocol::Udp);
    assert_eq!(m.buffer(), &[4, 5]);
    assert_ne!(OrderType::Ordered, OrderType::Unordered);
    assert_eq!(Endpoint::v4(0, 0, 0, 0, 0).ip, IpAddress::V4(0));
}
