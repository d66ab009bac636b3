use vstd::prelude::*;

use crate::endpoint::Endpoint;
use crate::event::{bytes_equal, ConnectEvent, ReceiveEvent};

verus! {

/// Waits for a stream connection from `from` to `to`; a `from` with port `0`
/// accepts any source port on its address.
#[derive(Clone, Copy, Debug, PartialEq, Eq, Structural)]
pub struct ConnectPredicate {
    pub from: Endpoint,
    pub to: Endpoint,
}

/// Whether a connection event is one that a predicate for `from` to `to`
/// waits for, whenever it happened.
pub open spec fn connect_accepts(from: Endpoint, to: Endpoint, event: ConnectEvent) -> bool {
    from.accepts_source(event.from) && event.to == to
}

/// Whether `events` holds a connection from `from` to `to` stamped strictly
/// after `since`.
pub open spec fn connected_since(
    from: Endpoint,
    to: Endpoint,
    since: u64,
    events: Seq<ConnectEvent>,
) -> bool {
    exists|i: int|
        0 <= i < events.len() && #[trigger] events[i].instant > since && connect_accepts(
            from,
            to,
            events[i],
        )
}

impl ConnectPredicate {
    pub fn new(from: Endpoint, to: Endpoint) -> (r: ConnectPredicate)
        ensures
            r.from == from,
            r.to == to,
    {
        ConnectPredicate { from, to }
    }

    pub fn from(&self) -> (r: &Endpoint)
        ensures
            *r == self.from,
    {
        &self.from
    }

    pub fn to(&self) -> (r: &Endpoint)
        ensures
            *r == self.to,
    {
        &self.to
    }

    /// Whether `event` is a connection that this predicate waits for,
    /// leaving its instant aside.
    pub fn matches(&self, event: &ConnectEvent) -> (r: bool)
        ensures
            r == connect_accepts(self.from, self.to, *event),
            self.from.port == 0 ==> (r <==> (event.from.ip == self.from.ip && event.to
                == self.to)),
            self.from.port != 0 ==> (r <==> (event.from == self.from && event.to == self.to)),
    {
        self.from.matches_source(&event.from) && event.to == self.to
    }

    /// Whether a predicate created at `since` is satisfied by `events`.
    pub fn is_satisfied(&self, since: u64, events: &[ConnectEvent]) -> (r: bool)
        ensures
            r == connected_since(self.from, self.to, since, events@),
    {
        connect_match(self.from, self.to, since, events)
    }
}

/// Whether `connect_events` holds a connection from `expected_from` to
/// `expected_to` stamped strictly after `expected_instant`.
pub fn connect_match(
    expected_from: Endpoint,
    expected_to: Endpoint,
    expected_instant: u64,
    connect_events: &[ConnectEvent],
) -> (r: bool)
    ensures
        r == connected_since(expected_from, expected_to, expected_instant, connect_events@),
{
    let predicate = ConnectPredicate { from: expected_from, to: expected_to };
    let mut i: usize = 0;
    while i < connect_events.len()
        invariant
            0 <= i <= connect_events@.len(),
            predicate.from == expected_from,
            predicate.to == expected_to,
            forall|j: int|
                0 <= j < i ==> !(#[trigger] connect_events@[j].instant > expected_instant
                    && connect_accepts(expected_from, expected_to, connect_events@[j])),
        decreases connect_events.len() - i,
    {
        let event = &connect_events[i];
        if event.instant > expected_instant && predicate.matches(event) {
            assert(connect_events@[i as int].instant > expected_instant);
            return true;
        }
        i = i + 1;
    }
    false
}


/// One expected message: its source (port `0`: any port on that address),
/// its destination and its exact bytes.
#[derive(Clone, Debug)]
pub struct MessagesPredicate {
    pub from: Endpoint,
    pub to: Endpoint,
    pub buffer: Vec<u8>,
}

impl MessagesPredicate {
    /// Whether `event` is a message that this entry expects.
    pub open spec fn accepts(&self, event: ReceiveEvent) -> bool {
        &&& self.from.accepts_source(event.from)
        &&& event.to == self.to
        &&& event.buffer@ == self.buffer@
    }

    pub fn matches(&self, event: &ReceiveEvent) -> (r: bool)
        ensures
            r == self.accepts(*event),
    {
        self.from.matches_source(&event.from) && event.to == self.to && bytes_equal(
            event.buffer.as_slice(),
            self.buffer.as_slice(),
        )
    }
}

/// `pos` places the entries of `expected` with indices `lo_k..hi_k` on events
/// of `events` at strictly increasing indices within `lo..hi`, each entry on
/// an event that it accepts.
pub open spec fn places_in_window(
    events: Seq<ReceiveEvent>,
    expected: Seq<MessagesPredicate>,
    lo_k: int,
    hi_k: int,
    lo: int,
    hi: int,
    pos: Seq<int>,
) -> bool {
    &&& pos.len() == hi_k - lo_k
    &&& forall|t: int|
        0 <= t < pos.len() ==> lo <= #[trigger] pos[t] < hi && expected[lo_k + t].accepts(
            events[pos[t]],
        )
    &&& forall|s: int, t: int| 0 <= s < t < pos.len() ==> #[trigger] pos[s] < #[trigger] pos[t]
}

/// `pos` places every entry of `expected` on its own event of `events`, in
/// the order of `expected`: the entries form an ordered subsequence of the
/// events, with any other events between them.
pub open spec fn is_ordered_placement(
    events: Seq<ReceiveEvent>,
    expected: Seq<MessagesPredicate>,
    pos: Seq<int>,
) -> bool {
    places_in_window(events, expected, 0, expected.len() as int, 0, events.len() as int, pos)
}

/// Whether the expected messages occur in `events` in their order, each on
/// an event of its own.
pub open spec fn occurs_in_order(
    events: Seq<ReceiveEvent>,
    expected: Seq<MessagesPredicate>,
) -> bool {
    exists|pos: Seq<int>| is_ordered_placement(events, expected, pos)
}

/// The events of `events` stamped strictly after `since`, in their order.
pub open spec fn fresh_receives(events: Seq<ReceiveEvent>, since: u64) -> Seq<ReceiveEvent> {
    events.filter(|e: ReceiveEvent| e.instant > since)
}

/// Whether the entries of `expected` from `k` on can be placed, in order,
/// on events of `events` from `idx` on.
pub open spec fn can_place_rest(
    events: Seq<ReceiveEvent>,
    expected: Seq<MessagesPredicate>,
    k: int,
    idx: int,
) -> bool {
    exists|pos: Seq<int>|
        #[trigger] places_in_window(
            events,
            expected,
            k,
            expected.len() as int,
            idx,
            events.len() as int,
            pos,
        )
}

/// Once entry `k` is placed on the first event at or after `idx` that it
/// accepts, at `j`, what can still be placed after `idx` can still be placed
/// after `j`.
proof fn lemma_first_match_keeps_rest(
    events: Seq<ReceiveEvent>,
    expected: Seq<MessagesPredicate>,
    k: int,
    idx: int,
    j: int,
)
    requires
        0 <= k < expected.len(),
        0 <= idx <= j < events.len(),
        expected[k].accepts(events[j]),
        forall|t: int| idx <= t < j ==> !expected[k].accepts(#[trigger] events[t]),
        can_place_rest(events, expected, k, idx),
    ensures
        can_place_rest(events, expected, k + 1, j + 1),
{
    let pos = choose|pos: Seq<int>|
        places_in_window(events, expected, k, expected.len() as int, idx, events.len() as int, pos);
    assert(pos.len() > 0);
    let p0 = pos[0];
    assert(expected[k + 0].accepts(events[p0]));
    assert(p0 >= j);
    let rest = pos.drop_first();
    assert forall|t: int| 0 <= t < rest.len() implies j + 1 <= #[trigger] rest[t] < events.len()
        && expected[k + 1 + t].accepts(events[rest[t]]) by {
        assert(rest[t] == pos[t + 1]);
        assert(pos[0] < pos[t + 1]);
        assert(expected[k + (t + 1)].accepts(events[pos[t + 1]]));
    }
    assert forall|s: int, t: int| 0 <= s < t < rest.len() implies #[trigger] rest[s]
        < #[trigger] rest[t] by {
        assert(rest[s] == pos[s + 1] && rest[t] == pos[t + 1]);
    }
    assert(places_in_window(
        events,
        expected,
        k + 1,
        expected.len() as int,
        j + 1,
        events.len() as int,
        rest,
    ));
}

/// Placing entry `k` on event `j`, after a placement of the entries before
/// it on events before `j`, places the entries up to `k`.
proof fn lemma_extend_prefix(
    events: Seq<ReceiveEvent>,
    expected: Seq<MessagesPredicate>,
    k: int,
    idx: int,
    j: int,
    pos: Seq<int>,
)
    requires
        0 <= k < expected.len(),
        0 <= idx <= j < events.len(),
        expected[k].accepts(events[j]),
        places_in_window(events, expected, 0, k, 0, idx, pos),
    ensures
        places_in_window(events, expected, 0, k + 1, 0, j + 1, pos.push(j)),
{
    let next = pos.push(j);
    assert forall|t: int| 0 <= t < next.len() implies 0 <= #[trigger] next[t] < j + 1
        && expected[0 + t].accepts(events[next[t]]) by {
        if t < pos.len() {
            assert(next[t] == pos[t]);
        }
    }
    assert forall|s: int, t: int| 0 <= s < t < next.len() implies #[trigger] next[s]
        < #[trigger] next[t] by {
        if t < pos.len() {
            assert(next[s] == pos[s] && next[t] == pos[t]);
        } else {
            assert(next[s] == pos[s]);
        }
    }
}

/// Whether `expected_messages` occur in `events` in their order, each on an
/// event of its own; unrelated events may stand between them.
pub fn receive_exact_match(
    events: &[&ReceiveEvent],
    expected_messages: &[MessagesPredicate],
) -> (r: bool)
    ensures
        r == occurs_in_order(events@.map_values(|e: &ReceiveEvent| *e), expected_messages@),
{
    let ghost evs = events@.map_values(|e: &ReceiveEvent| *e);
    let ghost exs = expected_messages@;
    let ghost mut placed: Seq<int> = Seq::empty();
    let mut idx: usize = 0;
    let mut k: usize = 0;
    assert(places_in_window(evs, exs, 0, 0, 0, 0, placed));
    proof {
        if occurs_in_order(evs, exs) {
            let pos = choose|pos: Seq<int>| is_ordered_placement(evs, exs, pos);
            assert(places_in_window(evs, exs, 0, exs.len() as int, 0, evs.len() as int, pos));
        }
    }
    while k < expected_messages.len()
        invariant
            evs == events@.map_values(|e: &ReceiveEvent| *e),
            exs == expected_messages@,
            0 <= idx <= events@.len(),
            0 <= k <= expected_messages@.len(),
            places_in_window(evs, exs, 0, k as int, 0, idx as int, placed),
            occurs_in_order(evs, exs) ==> can_place_rest(evs, exs, k as int, idx as int),
        decreases expected_messages.len() - k,
    {
        let expected = &expected_messages[k];
        let mut j: usize = idx;
        while j < events.len() && !expected.matches(events[j])
            invariant
                evs == events@.map_values(|e: &ReceiveEvent| *e),
                exs == expected_messages@,
                *expected == exs[k as int],
                0 <= k < exs.len(),
                idx <= j <= events@.len(),
                forall|t: int| idx <= t < j ==> !exs[k as int].accepts(#[trigger] evs[t]),
            decreases events.len() - j,
        {
            j = j + 1;
        }
        if j == events.len() {
            proof {
                if occurs_in_order(evs, exs) {
                    let pos = choose|pos: Seq<int>|
                        places_in_window(
                            evs,
                            exs,
                            k as int,
                            exs.len() as int,
                            idx as int,
                            evs.len() as int,
                            pos,
                        );
                    assert(exs[k + 0].accepts(evs[pos[0]]));
                    assert(false);
                }
            }
            return false;
        }
        proof {
            lemma_extend_prefix(evs, exs, k as int, idx as int, j as int, placed);
            if occurs_in_order(evs, exs) {
                lemma_first_match_keeps_rest(evs, exs, k as int, idx as int, j as int);
            }
            placed = placed.push(j as int);
        }
        idx = j + 1;
        k = k + 1;
    }
    proof {
        assert(places_in_window(evs, exs, 0, exs.len() as int, 0, evs.len() as int, placed));
        assert(is_ordered_placement(evs, exs, placed));
    }
    true
}


/// Waits until the listed messages arrive in their order, each as an event of
/// its own, with unrelated events allowed between them.
#[derive(Clone, Debug)]
pub struct ReceivePredicate {
    pub messages: Vec<MessagesPredicate>,
}

impl ReceivePredicate {
    pub fn new(messages: Vec<MessagesPredicate>) -> (r: ReceivePredicate)
        ensures
            r.messages@ == messages@,
    {
        ReceivePredicate { messages }
    }

    pub fn messages(&self) -> (r: &[MessagesPredicate])
        ensures
            r@ == self.messages@,
    {
        self.messages.as_slice()
    }

    /// Whether a predicate created at `since` is satisfied by the log `events`.
    pub open spec fn satisfied_by(&self, since: u64, events: Seq<ReceiveEvent>) -> bool {
        occurs_in_order(fresh_receives(events, since), self.messages@)
    }

    /// Whether a predicate created at `since` is satisfied by the log `events`:
    /// only the events stamped strictly after `since` take part.
    pub fn is_satisfied(&self, since: u64, events: &[ReceiveEvent]) -> (r: bool)
        ensures
            r == self.satisfied_by(since, events@),
    {
        let mut fresh: Vec<&ReceiveEvent> = Vec::new();
        let mut i: usize = 0;
        while i < events.len()
            invariant
                0 <= i <= events@.len(),
                fresh@.map_values(|e: &ReceiveEvent| *e) == fresh_receives(
                    events@.take(i as int),
                    since,
                ),
            decreases events.len() - i,
        {
            let event = &events[i];
            let ghost before = fresh@;
            if event.instant > since {
                fresh.push(event);
                assert(fresh@.map_values(|e: &ReceiveEvent| *e) =~= before.map_values(
                    |e: &ReceiveEvent| *e,
                ).push(*event));
            }
            proof {
                reveal(Seq::filter);
                assert(events@.take(i + 1).drop_last() =~= events@.take(i as int));
                assert(events@.take(i + 1).last() == events@[i as int]);
            }
            i = i + 1;
        }
        assert(events@.take(events@.len() as int) =~= events@);
        receive_exact_match(fresh.as_slice(), self.messages.as_slice())
    }
}

/// What a wait blocks on.
#[derive(Clone, Debug)]
pub enum WaitEvent {
    Connection(ConnectPredicate),
    Messages(ReceivePredicate),
}

impl WaitEvent {
    /// Whether a wait that began at `since` is over, given the logs.
    pub open spec fn satisfied_by(
        &self,
        since: u64,
        connects: Seq<ConnectEvent>,
        receives: Seq<ReceiveEvent>,
    ) -> bool {
        match self {
            WaitEvent::Connection(p) => connected_since(p.from, p.to, since, connects),
            WaitEvent::Messages(p) => p.satisfied_by(since, receives),
        }
    }

    pub fn is_satisfied(
        &self,
        since: u64,
        connects: &[ConnectEvent],
        receives: &[ReceiveEvent],
    ) -> (r: bool)
        ensures
            r == self.satisfied_by(since, connects@, receives@),
    {
        match self {
            WaitEvent::Connection(p) => p.is_satisfied(since, connects),
            WaitEvent::Messages(p) => p.is_satisfied(since, receives),
        }
    }
}

/// Blocks the script until its event holds, checked against the events
/// logged after the wait began. A wait has no timeout: one whose event never
/// comes blocks for good.
#[derive(Clone, Debug)]
pub struct Wait {
    pub event: WaitEvent,
}

impl Wait {
    pub fn new(event: WaitEvent) -> (r: Wait)
        ensures
            r.event == event,
    {
        Wait { event }
    }

    pub fn event(&self) -> (r: &WaitEvent)
        ensures
            *r == self.event,
    {
        &self.event
    }
}

/// Wildcard matching: a predicate whose source has port `0` accepts a
/// connection exactly when the source addresses agree and the destinations
/// are equal; any other predicate, exactly when both endpoints are equal.
pub proof fn lemma_wildcard_matching(predicate: ConnectPredicate, event: ConnectEvent)
    ensures
        predicate.from.port == 0 ==> (connect_accepts(predicate.from, predicate.to, event) <==> (
        event.from.ip == predicate.from.ip && event.to == predicate.to)),
        predicate.from.port != 0 ==> (connect_accepts(predicate.from, predicate.to, event) <==> (
        event.from == predicate.from && event.to == predicate.to)),
{
}

proof fn lemma_filter_all_rejected(s: Seq<ReceiveEvent>, since: u64)
    requires
        forall|i: int| 0 <= i < s.len() ==> (#[trigger] s[i]).instant <= since,
    ensures
        fresh_receives(s, since) =~= Seq::<ReceiveEvent>::empty(),
    decreases s.len(),
{
    reveal(Seq::filter);
    if s.len() > 0 {
        lemma_filter_all_rejected(s.drop_last(), since);
    }
}

/// A connection predicate created at `since` ignores every event stamped at
/// or before `since`: putting such events in front of the log never changes
/// its verdict, and a log of such events alone never satisfies it.
pub proof fn lemma_connect_ignores_stale_events(
    predicate: ConnectPredicate,
    since: u64,
    stale: Seq<ConnectEvent>,
    events: Seq<ConnectEvent>,
)
    requires
        forall|i: int| 0 <= i < stale.len() ==> (#[trigger] stale[i]).instant <= since,
    ensures
        connected_since(predicate.from, predicate.to, since, stale + events) == connected_since(
            predicate.from,
            predicate.to,
            since,
            events,
        ),
        !connected_since(predicate.from, predicate.to, since, stale),
{
    let all = stale + events;
    if connected_since(predicate.from, predicate.to, since, all) {
        let i = choose|i: int|
            0 <= i < all.len() && #[trigger] all[i].instant > since && connect_accepts(
                predicate.from,
                predicate.to,
                all[i],
            );
        if i < stale.len() {
            assert(all[i] == stale[i]);
        } else {
            assert(all[i] == events[i - stale.len()]);
            assert(events[i - stale.len()].instant > since);
        }
    }
    if connected_since(predicate.from, predicate.to, since, events) {
        let i = choose|i: int|
            0 <= i < events.len() && #[trigger] events[i].instant > since && connect_accepts(
                predicate.from,
                predicate.to,
                events[i],
            );
        assert(all[i + stale.len()] == events[i]);
        assert(all[i + stale.len()].instant > since);
    }
}

/// A message predicate created at `since` ignores every event stamped at or
/// before `since`: putting such events in front of the log never changes its
/// verdict, and a log of such events alone satisfies it only where it
/// expects nothing.
pub proof fn lemma_receive_ignores_stale_events(
    predicate: ReceivePredicate,
    since: u64,
    stale: Seq<ReceiveEvent>,
    events: Seq<ReceiveEvent>,
)
    requires
        forall|i: int| 0 <= i < stale.len() ==> (#[trigger] stale[i]).instant <= since,
    ensures
        predicate.satisfied_by(since, stale + events) == predicate.satisfied_by(since, events),
        predicate.satisfied_by(since, stale) == (predicate.messages@.len() == 0),
{
    let p = |e: ReceiveEvent| e.instant > since;
    lemma_filter_all_rejected(stale, since);
    Seq::filter_distributes_over_add(stale, events, p);
    assert(fresh_receives(stale + events, since) =~= fresh_receives(events, since));
    let none = Seq::<ReceiveEvent>::empty();
    if predicate.messages@.len() == 0 {
        assert(is_ordered_placement(none, predicate.messages@, Seq::<int>::empty()));
    } else if occurs_in_order(none, predicate.messages@) {
        let pos = choose|pos: Seq<int>| is_ordered_placement(none, predicate.messages@, pos);
        assert(places_in_window(
            none,
            predicate.messages@,
            0,
            predicate.messages@.len() as int,
            0,
            0,
            pos,
        ));
        assert(pos.len() > 0);
        let first = pos[0];
        assert(0 <= first < 0);
    }
}

proof fn lemma_placement_grows(
    events: Seq<ReceiveEvent>,
    expected: Seq<MessagesPredicate>,
    pos: Seq<int>,
    t: int,
)
    requires
        is_ordered_placement(events, expected, pos),
        0 <= t < pos.len(),
    ensures
        pos[t] >= t,
    decreases t,
{
    if t > 0 {
        lemma_placement_grows(events, expected, pos, t - 1);
        assert(pos[t - 1] < pos[t]);
    }
}

/// No event serves two entries: a placement puts distinct entries on
/// distinct events, so a list that is satisfied is no longer than the events.
pub proof fn lemma_no_event_reuse(
    events: Seq<ReceiveEvent>,
    expected: Seq<MessagesPredicate>,
    pos: Seq<int>,
)
    requires
        is_ordered_placement(events, expected, pos),
    ensures
        forall|s: int, t: int|
            0 <= s < pos.len() && 0 <= t < pos.len() && s != t ==> #[trigger] pos[s]
                != #[trigger] pos[t],
        expected.len() <= events.len(),
{
    assert forall|s: int, t: int|
        0 <= s < pos.len() && 0 <= t < pos.len() && s != t implies #[trigger] pos[s]
        != #[trigger] pos[t] by {
        if s < t {
            assert(pos[s] < pos[t]);
        } else {
            assert(pos[t] < pos[s]);
        }
    }
    if expected.len() > 0 {
        lemma_placement_grows(events, expected, pos, expected.len() - 1);
    }
}

/// A satisfied message list is never longer than the events it was matched on.
pub proof fn lemma_satisfied_list_fits(events: Seq<ReceiveEvent>, expected: Seq<MessagesPredicate>)
    requires
        occurs_in_order(events, expected),
    ensures
        expected.len() <= events.len(),
{
    let pos = choose|pos: Seq<int>| is_ordered_placement(events, expected, pos);
    lemma_no_event_reuse(events, expected, pos);
}

} // verus!
