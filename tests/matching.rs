use nseseq::{
    ConnectEvent, ConnectPredicate, Endpoint, IpAddress, MessagesPredicate, ReceiveEvent,
    ReceivePredicate, Wait, WaitEvent,
};

fn ep(d: u8, port: u16) -> Endpoint {
    Endpoint::v4(10, 0, 0, d, port)
}

fn receive(instant: u64, from: Endpoint, to: Endpoint, buffer: Vec<u8>) -> ReceiveEvent {
    ReceiveEvent { instant, from, to, buffer }
}

fn expect(from: Endpoint, to: Endpoint, buffer: Vec<u8>) -> MessagesPredicate {
    MessagesPredicate { from, to, buffer }
}

#[test]
fn endpoint_v4_packs_octets_big_endian() {
    let e = Endpoint::v4(127, 0, 0, 1, 3000);
    assert_eq!(e.ip(), IpAddress::V4(0x7f00_0001));
    assert_eq!(e.port(), 3000);
    assert_eq!(Endpoint::v4(192, 168, 1, 255, 7).ip, IpAddress::V4(0xc0a8_01ff));
    assert_eq!(Endpoint::new(IpAddress::V6(1), 80), Endpoint { ip: IpAddress::V6(1), port: 80 });
}

#[test]
fn wildcard_source_compares_address_only() {
    let p = ConnectPredicate::new(ep(1, 0), ep(2, 3000));
    let same_ip_any_port = ConnectEvent { instant: 1, from: ep(1, 51234), to: ep(2, 3000) };
    let other_ip = ConnectEvent { instant: 1, from: ep(9, 51234), to: ep(2, 3000) };
    let other_to = ConnectEvent { instant: 1, from: ep(1, 51234), to: ep(2, 3001) };
    assert!(p.matches(&same_ip_any_port));
    assert!(!p.matches(&other_ip));
    assert!(!p.matches(&other_to));
}

#[test]
fn exact_source_compares_address_and_port() {
    let p = ConnectPredicate::new(ep(1, 4000), ep(2, 3000));
    assert!(p.matches(&ConnectEvent { instant: 1, from: ep(1, 4000), to: ep(2, 3000) }));
    assert!(!p.matches(&ConnectEvent { instant: 1, from: ep(1, 4001), to: ep(2, 3000) }));
    assert_eq!(*p.from(), ep(1, 4000));
    assert_eq!(*p.to(), ep(2, 3000));
}

#[test]
fn connect_predicate_ignores_event_before_creation() {
    let p = ConnectPredicate::new(ep(1, 4000), ep(2, 3000));
    let t0: u64 = 100;
    let t1: u64 = 200;
    let old = ConnectEvent { instant: t0, from: ep(1, 4000), to: ep(2, 3000) };
    assert!(!p.is_satisfied(t1, &[old]));
    let fresh = ConnectEvent { instant: t1 + 1, from: ep(1, 4000), to: ep(2, 3000) };
    assert!(p.is_satisfied(t1, &[old, fresh]));
}

#[test]
fn receive_predicate_ignores_events_before_creation() {
    let p = ReceivePredicate::new(vec![expect(ep(1, 0), ep(2, 3000), vec![7])]);
    let stale = receive(50, ep(1, 4000), ep(2, 3000), vec![7]);
    assert!(!p.is_satisfied(50, &[stale.clone()]));
    let fresh = receive(51, ep(1, 4000), ep(2, 3000), vec![7]);
    assert!(p.is_satisfied(50, &[stale, fresh]));
}

#[test]
fn ordered_list_skips_unrelated_events() {
    let events = vec![
        receive(1, ep(1, 4000), ep(2, 3000), vec![1, 2, 3]),
        receive(2, ep(5, 4000), ep(2, 3000), vec![9]),
        receive(3, ep(1, 4000), ep(2, 3000), vec![4, 5, 6]),
    ];
    let p = ReceivePredicate::new(vec![
        expect(ep(1, 4000), ep(2, 3000), vec![1, 2, 3]),
        expect(ep(1, 0), ep(2, 3000), vec![4, 5, 6]),
    ]);
    assert!(p.is_satisfied(0, &events));
    assert_eq!(p.messages().len(), 2);
    let reversed = ReceivePredicate::new(vec![
        expect(ep(1, 0), ep(2, 3000), vec![4, 5, 6]),
        expect(ep(1, 4000), ep(2, 3000), vec![1, 2, 3]),
    ]);
    assert!(!reversed.is_satisfied(0, &events));
}

#[test]
fn one_event_serves_one_entry_only() {
    let event = receive(1, ep(1, 4000), ep(2, 3000), vec![1]);
    let twice = ReceivePredicate::new(vec![
        expect(ep(1, 4000), ep(2, 3000), vec![1]),
        expect(ep(1, 0), ep(2, 3000), vec![1]),
    ]);
    assert!(!twice.is_satisfied(0, &[event.clone()]));
    let again = receive(2, ep(1, 4000), ep(2, 3000), vec![1]);
    assert!(twice.is_satisfied(0, &[event, again]));
}

#[test]
fn empty_list_is_satisfied_at_once() {
    let p = ReceivePredicate::new(vec![]);
    assert!(p.is_satisfied(10, &[]));
}

#[test]
fn message_entry_needs_exact_bytes() {
    let entry = expect(ep(1, 0), ep(2, 3000), vec![1, 2]);
    assert!(entry.matches(&receive(1, ep(1, 9), ep(2, 3000), vec![1, 2])));
    assert!(!entry.matches(&receive(1, ep(1, 9), ep(2, 3000), vec![1, 2, 3])));
    assert!(!entry.matches(&receive(1, ep(1, 9), ep(2, 3000), vec![1])));
    assert!(!entry.matches(&receive(1, ep(3, 9), ep(2, 3000), vec![1, 2])));
}

#[test]
fn wait_event_dispatches_on_its_kind() {
    let connects = [ConnectEvent { instant: 5, from: ep(1, 4000), to: ep(2, 3000) }];
    let receives = [receive(5, ep(1, 4000), ep(2, 3000), vec![3])];
    let w = Wait::new(WaitEvent::Connection(ConnectPredicate::new(ep(1, 0), ep(2, 3000))));
    assert!(w.event().is_satisfied(4, &connects, &[]));
    assert!(!w.event().is_satisfied(5, &connects, &receives));
    let m = WaitEvent::Messages(ReceivePredicate::new(vec![expect(ep(1, 4000), ep(2, 3000), vec![3])]));
    assert!(m.is_satisfied(4, &[], &receives));
    assert!(!m.is_satisfied(4, &connects, &[]));
}
