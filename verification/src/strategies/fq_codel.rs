//! FQ-CoDel: one queue and one CoDel state per flow, served round-robin.

use crate::clock::now_micros;
use crate::network::packet::{Packet, PacketView};
use crate::strategies::codel::{
    control_interval, control_law_for, count_after, elapsed_since, instant_after, INTERVAL_US,
    TARGET_US,
};
use crate::strategies::{no_reset, run, Action, Event, Strategy};
use std::collections::{HashMap, VecDeque};
use vstd::prelude::*;

verus! {

/// Number of flows that arrivals are spread over.
pub const NUM_FLOWS: u32 = 1024;

/// CoDel state of one flow.
#[derive(Debug, Clone, Copy, PartialEq, Eq)]
pub struct FlowState {
    /// When the flow's sojourn time was first seen above the target.
    pub first_above_time: Option<u64>,
    /// When the next drop is due while dropping.
    pub drop_next: u64,
    /// Drops made since dropping began.
    pub count: u32,
    pub dropping: bool,
}

/// The state of a flow that has seen no arrival yet.
pub open spec fn fresh_flow_state() -> FlowState {
    FlowState { first_above_time: None, drop_next: 0, count: 0, dropping: false }
}

impl FlowState {
    pub fn new() -> (state: Self)
        ensures
            state == fresh_flow_state(),
    {
        FlowState { first_above_time: None, drop_next: 0, count: 0, dropping: false }
    }

    /// Neither dropping nor above the target.
    pub open spec fn is_idle(self) -> bool {
        !self.dropping && self.first_above_time is None
    }
}

/// A queued packet with its flow and the time of its arrival, as plain
/// values.
pub struct QueuedView {
    pub packet: PacketView,
    pub flow_id: u32,
    pub enqueue_time: u64,
}

/// A packet in a flow's queue.
#[derive(Debug)]
pub struct QueuedPacket {
    pub packet: Packet,
    pub flow_id: u32,
    pub enqueue_time: u64,
}

impl View for QueuedPacket {
    type V = QueuedView;

    open spec fn view(&self) -> QueuedView {
        QueuedView {
            packet: self.packet@,
            flow_id: self.flow_id,
            enqueue_time: self.enqueue_time,
        }
    }
}

/// One flow, as plain values: its CoDel state, if it has one, and its
/// queue, head first.
pub struct FlowView {
    pub codel: Option<FlowState>,
    pub queue: Seq<QueuedView>,
}

/// The queue of a flow, as plain values.
pub open spec fn queue_view(queue: VecDeque<QueuedPacket>) -> Seq<QueuedView> {
    Seq::new(queue@.len(), |j: int| queue@[j]@)
}

/// The flow of an id as the two maps hold it: a flow without an entry has
/// no state, and a flow without a queue has no packets.
pub open spec fn flow_at(
    states: Map<u32, FlowState>,
    queues: Map<u32, VecDeque<QueuedPacket>>,
    id: u32,
) -> FlowView {
    FlowView {
        codel: if states.contains_key(id) {
            Some(states[id])
        } else {
            None
        },
        queue: if queues.contains_key(id) {
            queue_view(queues[id])
        } else {
            Seq::empty()
        },
    }
}

/// Abstract state of an FQ-CoDel instance.
pub struct FqCoDelState {
    /// Packets that all flow queues together may hold.
    pub buffer_size: usize,
    /// The flows, by flow id.
    pub flows: Seq<FlowView>,
    /// The flow that was served last.
    pub last_dequeue_flow: Option<u32>,
}

/// The flow of a packet: its source agent modulo the number of flows.
pub open spec fn flow_of(source_agent: u32) -> u32 {
    source_agent % NUM_FLOWS
}

/// Packets in all the queues of `flows` together.
pub open spec fn total_queued(flows: Seq<FlowView>) -> nat
    decreases flows.len(),
{
    if flows.len() == 0 {
        0
    } else {
        total_queued(flows.drop_last()) + flows.last().queue.len()
    }
}

/// Head-of-line sojourn time of a flow at `now`: the time that the head
/// of its queue has waited; zero for a flow without packets.
pub open spec fn flow_head_sojourn(flow: FlowView, now: u64) -> u64 {
    if flow.queue.len() > 0 {
        elapsed_since(now, flow.queue[0].enqueue_time)
    } else {
        0
    }
}

/// A flow without state and without packets.
pub open spec fn empty_flow() -> FlowView {
    FlowView { codel: None, queue: Seq::empty() }
}

/// The state a constructor gives.
pub open spec fn fq_initial(buffer_size: usize) -> FqCoDelState {
    FqCoDelState {
        buffer_size,
        flows: Seq::new(NUM_FLOWS as nat, |i: int| empty_flow()),
        last_dequeue_flow: None,
    }
}

/// What holds of every reachable state.
pub open spec fn fq_valid(s: FqCoDelState) -> bool {
    &&& s.flows.len() == NUM_FLOWS
    &&& total_queued(s.flows) <= s.buffer_size
    &&& s.last_dequeue_flow matches Some(f) ==> f < NUM_FLOWS
}

/// CoDel's verdict on an arrival to a flow whose head-of-line sojourn time
/// is `sojourn`: the flow's next state, and whether the arrival is dropped.
/// Below the target the flow is cleared. Once the sojourn time has been at
/// or above the target for an interval the flow drops: the arrival that
/// finds it so, and then one arrival whenever a drop is due, the next
/// being due a control interval of the raised count later.
pub open spec fn flow_verdict(st: FlowState, sojourn: u64, now: u64) -> (FlowState, bool) {
    if sojourn < TARGET_US {
        (FlowState { first_above_time: None, dropping: false, count: 0, ..st }, false)
    } else {
        let first_above: u64 = match st.first_above_time {
            Some(t) => t,
            None => now,
        };
        let st1 = FlowState { first_above_time: Some(first_above), ..st };
        if elapsed_since(now, first_above) >= INTERVAL_US {
            if !st.dropping {
                (FlowState { dropping: true, count: 1, drop_next: now, ..st1 }, true)
            } else if now >= st.drop_next {
                (
                    FlowState {
                        count: count_after(st.count),
                        drop_next: instant_after(now, control_interval(count_after(st.count))),
                        ..st1
                    },
                    true,
                )
            } else {
                (st1, false)
            }
        } else {
            (st1, false)
        }
    }
}

/// An arrival at `now`. It is refused when the queues together are full.
/// Else its flow's CoDel state decides on the sojourn time of the head of
/// the flow's queue, and an accepted packet joins the tail of that queue.
pub open spec fn fq_enqueue(pre: FqCoDelState, packet: PacketView, now: u64) -> (
    FqCoDelState,
    Action,
) {
    let flow_id = flow_of(packet.source_agent);
    let flow = pre.flows[flow_id as int];
    if total_queued(pre.flows) >= pre.buffer_size {
        (pre, Action::Drop)
    } else {
        let st = match flow.codel {
            Some(st) => st,
            None => fresh_flow_state(),
        };
        let (st2, should_drop) = flow_verdict(st, flow_head_sojourn(flow, now), now);
        if should_drop {
            (
                FqCoDelState {
                    flows: pre.flows.update(
                        flow_id as int,
                        FlowView { codel: Some(st2), queue: flow.queue },
                    ),
                    ..pre
                },
                Action::Drop,
            )
        } else {
            (
                FqCoDelState {
                    flows: pre.flows.update(
                        flow_id as int,
                        FlowView {
                            codel: Some(st2),
                            queue: flow.queue.push(
                                QueuedView { packet, flow_id, enqueue_time: now },
                            ),
                        },
                    ),
                    ..pre
                },
                Action::Accept,
            )
        }
    }
}

/// The flow that is `k` places after `start` in the round.
pub open spec fn slot(start: int, k: int) -> int {
    if start + k >= NUM_FLOWS {
        start + k - NUM_FLOWS
    } else {
        start + k
    }
}

/// Where the round begins: at the flow after the one served last.
pub open spec fn round_start(last: Option<u32>) -> int {
    match last {
        None => 0,
        Some(f) => slot(f as int, 1),
    }
}

/// The first flow with a packet among those `k` or more places after
/// `start` in the round.
pub open spec fn next_backlogged(flows: Seq<FlowView>, start: int, k: int) -> Option<int>
    decreases NUM_FLOWS - k,
{
    if k >= NUM_FLOWS || k < 0 {
        None
    } else if flows[slot(start, k)].queue.len() > 0 {
        Some(slot(start, k))
    } else {
        next_backlogged(flows, start, k + 1)
    }
}

/// A departure: the head of the first flow with a packet, in the round
/// that begins after the flow served last, leaves, and that flow becomes
/// the one served last. Nothing changes when no flow has a packet.
pub open spec fn fq_dequeue(pre: FqCoDelState) -> FqCoDelState {
    match next_backlogged(pre.flows, round_start(pre.last_dequeue_flow), 0) {
        None => pre,
        Some(f) => {
            let flow = pre.flows[f];
            FqCoDelState {
                flows: pre.flows.update(
                    f,
                    FlowView { queue: flow.queue.subrange(1, flow.queue.len() as int), ..flow },
                ),
                last_dequeue_flow: Some(f as u32),
                ..pre
            }
        },
    }
}

/// A flow after the periodic tick: its CoDel state is forgotten when it is
/// idle and the queue is empty.
pub open spec fn pruned(flow: FlowView) -> FlowView {
    match flow.codel {
        Some(st) => if st.is_idle() && flow.queue.len() == 0 {
            FlowView { codel: None, ..flow }
        } else {
            flow
        },
        None => flow,
    }
}

/// The periodic tick prunes every flow.
pub open spec fn fq_update(pre: FqCoDelState) -> FqCoDelState {
    FqCoDelState { flows: Seq::new(pre.flows.len(), |i: int| pruned(pre.flows[i])), ..pre }
}

/// Replacing one flow changes the total by the change of that flow's
/// queue length.
pub proof fn lemma_total_queued_update(flows: Seq<FlowView>, i: int, flow: FlowView)
    requires
        0 <= i < flows.len(),
    ensures
        total_queued(flows.update(i, flow)) + flows[i].queue.len() == total_queued(flows)
            + flow.queue.len(),
    decreases flows.len(),
{
    let updated = flows.update(i, flow);
    if i == flows.len() - 1 {
        assert(updated.drop_last() =~= flows.drop_last());
    } else {
        assert(updated.drop_last() =~= flows.drop_last().update(i, flow));
        lemma_total_queued_update(flows.drop_last(), i, flow);
    }
}

/// A prefix of the flows holds no more packets than all of them.
pub proof fn lemma_total_queued_prefix(flows: Seq<FlowView>, n: int)
    requires
        0 <= n <= flows.len(),
    ensures
        total_queued(flows.take(n)) <= total_queued(flows),
        n < flows.len() ==> total_queued(flows.take(n + 1)) == total_queued(flows.take(n))
            + flows[n].queue.len(),
        n == flows.len() ==> flows.take(n) =~= flows,
    decreases flows.len() - n,
{
    if n < flows.len() {
        assert(flows.take(n + 1).drop_last() =~= flows.take(n));
        lemma_total_queued_prefix(flows, n + 1);
    } else {
        assert(flows.take(n) =~= flows);
    }
}

/// Flows without packets hold none together.
pub proof fn lemma_total_queued_empty(flows: Seq<FlowView>)
    requires
        forall|i: int| 0 <= i < flows.len() ==> (#[trigger] flows[i]).queue.len() == 0,
    ensures
        total_queued(flows) == 0,
    decreases flows.len(),
{
    if flows.len() > 0 {
        lemma_total_queued_empty(flows.drop_last());
    }
}

/// Pruning changes no queue, so the total stays.
pub proof fn lemma_total_queued_same_queues(a: Seq<FlowView>, b: Seq<FlowView>)
    requires
        a.len() == b.len(),
        forall|i: int| 0 <= i < a.len() ==> (#[trigger] a[i]).queue == b[i].queue,
    ensures
        total_queued(a) == total_queued(b),
    decreases a.len(),
{
    if a.len() > 0 {
        lemma_total_queued_same_queues(a.drop_last(), b.drop_last());
    }
}

/// Place of a flow in the round that begins at `start`.
pub open spec fn place_in_round(start: int, flow: int) -> int {
    if flow >= start {
        flow - start
    } else {
        flow - start + NUM_FLOWS
    }
}

/// The flow that the next departure serves, if any has a packet.
pub open spec fn served_flow(s: FqCoDelState) -> Option<int> {
    next_backlogged(s.flows, round_start(s.last_dequeue_flow), 0)
}

/// Whether a flow has a packet.
pub open spec fn backlogged(s: FqCoDelState, flow: int) -> bool {
    0 <= flow < s.flows.len() && s.flows[flow].queue.len() > 0
}

/// One where the turn of `g` comes before that of `f` in the round to
/// come, zero where the turn of `f` comes first.
pub open spec fn turn_behind(s: FqCoDelState, f: int, g: int) -> int {
    let start = round_start(s.last_dequeue_flow);
    if place_in_round(start, f) > place_in_round(start, g) {
        1
    } else {
        0
    }
}

/// There are `NUM_FLOWS` flows, and the flow served last is one of them.
pub open spec fn fq_shaped(s: FqCoDelState) -> bool {
    &&& s.flows.len() == NUM_FLOWS
    &&& s.last_dequeue_flow matches Some(f) ==> f < NUM_FLOWS
}

/// The scan of a round finds the first flow with a packet: where the flow
/// at place `j` has one, the flow found has a packet and its place is not
/// after `j`.
pub proof fn lemma_next_backlogged_first(flows: Seq<FlowView>, start: int, k0: int, j: int)
    requires
        flows.len() == NUM_FLOWS,
        0 <= start < NUM_FLOWS,
        0 <= k0 <= j < NUM_FLOWS,
        flows[slot(start, j)].queue.len() > 0,
    ensures
        next_backlogged(flows, start, k0) is Some,
        ({
            let h = next_backlogged(flows, start, k0)->0;
            &&& 0 <= h < NUM_FLOWS
            &&& flows[h].queue.len() > 0
            &&& k0 <= place_in_round(start, h) <= j
        }),
    decreases NUM_FLOWS - k0,
{
    if flows[slot(start, k0)].queue.len() > 0 {
    } else {
        lemma_next_backlogged_first(flows, start, k0 + 1, j);
    }
}

/// One departure with two flows backlogged: it serves a flow, and the
/// lead of `f` over `g` in packets served grows by exactly as much as the
/// turn of `f` falls behind that of `g`.
pub proof fn lemma_departure_takes_turns(s: FqCoDelState, f: int, g: int)
    requires
        fq_shaped(s),
        f != g,
        backlogged(s, f),
        backlogged(s, g),
    ensures
        fq_shaped(fq_dequeue(s)),
        served_flow(s) is Some,
        (if served_flow(s) == Some(f) {
            1int
        } else {
            0int
        }) - (if served_flow(s) == Some(g) {
            1int
        } else {
            0int
        }) == turn_behind(fq_dequeue(s), f, g) - turn_behind(s, f, g),
{
    let start = round_start(s.last_dequeue_flow);
    let pf = place_in_round(start, f);
    let pg = place_in_round(start, g);
    assert(slot(start, pf) == f);
    assert(slot(start, pg) == g);
    lemma_next_backlogged_first(s.flows, start, 0, pf);
    lemma_next_backlogged_first(s.flows, start, 0, pg);
}

/// A run keeps the number of flows.
pub proof fn lemma_run_keeps_shape(pre: FqCoDelState, events: Seq<Event>)
    requires
        fq_shaped(pre),
    ensures
        fq_shaped(run::<FqCoDel>(pre, events).0),
    decreases events.len(),
{
    if events.len() > 0 {
        lemma_run_keeps_shape(pre, events.drop_last());
        let mid = run::<FqCoDel>(pre, events.drop_last()).0;
        match events.last() {
            Event::Departure { queue_len, now } => {
                match served_flow(mid) {
                    Some(h) => {
                        lemma_served_flow_in_range(mid);
                    },
                    None => {},
                }
            },
            _ => {},
        }
    }
}

/// The flow that a departure serves is one of the flows.
pub proof fn lemma_served_flow_in_range(s: FqCoDelState)
    requires
        fq_shaped(s),
    ensures
        served_flow(s) matches Some(h) ==> 0 <= h < NUM_FLOWS,
{
    lemma_scan_in_range(s.flows, round_start(s.last_dequeue_flow), 0);
}

/// The scan of a round finds one of the flows.
pub proof fn lemma_scan_in_range(flows: Seq<FlowView>, start: int, k: int)
    requires
        0 <= start < NUM_FLOWS,
        0 <= k,
    ensures
        next_backlogged(flows, start, k) matches Some(h) ==> 0 <= h < NUM_FLOWS,
    decreases NUM_FLOWS - k,
{
    if k < NUM_FLOWS && !(flows[slot(start, k)].queue.len() > 0) {
        lemma_scan_in_range(flows, start, k + 1);
    }
}

/// Packets of flow `f` that the departures of a run serve, the run
/// starting in `pre`.
pub open spec fn served_in_run(pre: FqCoDelState, events: Seq<Event>, f: int) -> int
    decreases events.len(),
{
    if events.len() == 0 {
        0
    } else {
        let earlier = events.drop_last();
        let mid = run::<FqCoDel>(pre, earlier).0;
        served_in_run(pre, earlier, f) + (if events.last() is Departure && served_flow(mid)
            == Some(f) {
            1int
        } else {
            0int
        })
    }
}

/// Whether flows `f` and `g` both have a packet at every departure of a
/// run that starts in `pre`.
pub open spec fn both_backlogged(pre: FqCoDelState, events: Seq<Event>, f: int, g: int) -> bool
    decreases events.len(),
{
    if events.len() == 0 {
        true
    } else {
        let earlier = events.drop_last();
        let mid = run::<FqCoDel>(pre, earlier).0;
        both_backlogged(pre, earlier, f, g) && (events.last() is Departure ==> backlogged(mid, f)
            && backlogged(mid, g))
    }
}

/// Round-robin is fair: over any run without a reset in which two flows
/// have a packet at every departure, the numbers of packets served from
/// the two differ by at most one.
pub proof fn lemma_round_robin_fair(pre: FqCoDelState, events: Seq<Event>, f: int, g: int)
    requires
        fq_shaped(pre),
        f != g,
        no_reset(events),
        both_backlogged(pre, events, f, g),
    ensures
        served_in_run(pre, events, f) - served_in_run(pre, events, g) == turn_behind(
            run::<FqCoDel>(pre, events).0,
            f,
            g,
        ) - turn_behind(pre, f, g),
        -1 <= served_in_run(pre, events, f) - served_in_run(pre, events, g) <= 1,
    decreases events.len(),
{
    if events.len() > 0 {
        let earlier = events.drop_last();
        assert(no_reset(earlier)) by {
            assert forall|i: int| 0 <= i < earlier.len() implies !(#[trigger] earlier[i]
                is Reset) by {
                assert(earlier[i] == events[i]);
            }
        }
        lemma_round_robin_fair(pre, earlier, f, g);
        lemma_run_keeps_shape(pre, earlier);
        let mid = run::<FqCoDel>(pre, earlier).0;
        assert(!(events[events.len() - 1] is Reset));
        match events.last() {
            Event::Departure { queue_len, now } => {
                lemma_departure_takes_turns(mid, f, g);
            },
            _ => {},
        }
    }
}

/// The state after `n` departures in a row.
pub open spec fn after_departures(s: FqCoDelState, n: nat) -> FqCoDelState
    decreases n,
{
    if n == 0 {
        s
    } else {
        fq_dequeue(after_departures(s, (n - 1) as nat))
    }
}

/// A flow after its head has left.
pub open spec fn head_removed(flow: FlowView) -> FlowView {
    FlowView { queue: flow.queue.subrange(1, flow.queue.len() as int), ..flow }
}

/// Number of flows with a packet among the first `p` places of the round
/// that begins at `start`.
pub open spec fn backlogged_before(s: FqCoDelState, start: int, p: int) -> nat
    decreases p,
{
    if p <= 0 {
        0
    } else {
        backlogged_before(s, start, p - 1) + if backlogged(s, slot(start, p - 1)) {
            1nat
        } else {
            0nat
        }
    }
}

/// The last place before `p` whose flow has a packet, in the round that
/// begins at `start`; -1 where there is none.
pub open spec fn last_backlogged_place(s: FqCoDelState, start: int, p: int) -> int
    decreases p,
{
    if p <= 0 {
        -1
    } else if backlogged(s, slot(start, p - 1)) {
        p - 1
    } else {
        last_backlogged_place(s, start, p - 1)
    }
}

/// The state once every flow with a packet among the first `p` places of
/// the round that begins at `start` has been served once, in the order of
/// the places.
pub open spec fn served_up_to(s: FqCoDelState, start: int, p: int) -> FqCoDelState
    decreases p,
{
    if p <= 0 {
        s
    } else {
        let t = served_up_to(s, start, p - 1);
        let f = slot(start, p - 1);
        if backlogged(s, f) {
            FqCoDelState {
                flows: t.flows.update(f, head_removed(t.flows[f])),
                last_dequeue_flow: Some(f as u32),
                ..t
            }
        } else {
            t
        }
    }
}

/// What `served_up_to` holds: flows with a packet at places before `p`
/// have lost their head, all else is as it was, and the flow served last
/// is the one at the last such place.
pub proof fn lemma_served_up_to_shape(s: FqCoDelState, start: int, p: int)
    requires
        fq_shaped(s),
        0 <= start < NUM_FLOWS,
        0 <= p <= NUM_FLOWS,
    ensures
        ({
            let t = served_up_to(s, start, p);
            let q = last_backlogged_place(s, start, p);
            &&& t.flows.len() == NUM_FLOWS
            &&& t.buffer_size == s.buffer_size
            &&& forall|f: int|
                0 <= f < NUM_FLOWS ==> #[trigger] t.flows[f] == if place_in_round(start, f) < p
                    && backlogged(s, f) {
                    head_removed(s.flows[f])
                } else {
                    s.flows[f]
                }
            &&& -1 <= q < p
            &&& q < 0 ==> t.last_dequeue_flow == s.last_dequeue_flow
            &&& q >= 0 ==> backlogged(s, slot(start, q)) && t.last_dequeue_flow == Some(
                slot(start, q) as u32,
            )
            &&& forall|f: int|
                0 <= f < NUM_FLOWS && q < place_in_round(start, f) < p ==> !#[trigger] backlogged(
                    s,
                    f,
                )
            &&& (q >= 0 <==> backlogged_before(s, start, p) > 0)
        }),
    decreases p,
{
    if p > 0 {
        lemma_served_up_to_shape(s, start, p - 1);
        let f = slot(start, p - 1);
        assert(place_in_round(start, f) == p - 1);
        let t0 = served_up_to(s, start, p - 1);
        let t = served_up_to(s, start, p);
        assert forall|g: int| 0 <= g < NUM_FLOWS implies #[trigger] t.flows[g] == if place_in_round(
            start,
            g,
        ) < p && backlogged(s, g) {
            head_removed(s.flows[g])
        } else {
            s.flows[g]
        } by {
            if g != f {
                assert(place_in_round(start, g) != p - 1);
                assert(t.flows[g] == t0.flows[g]);
            }
        }
    }
}

/// The scan of a round finds the flow at offset `j` where that flow has
/// a packet and those at the offsets from `k` up to it have none.
pub proof fn lemma_scan_finds(flows: Seq<FlowView>, start: int, k: int, j: int)
    requires
        flows.len() == NUM_FLOWS,
        0 <= start < NUM_FLOWS,
        0 <= k <= j < NUM_FLOWS,
        flows[slot(start, j)].queue.len() > 0,
        forall|f: int|
            0 <= f < NUM_FLOWS && k <= place_in_round(start, f) < j ==> (#[trigger] flows[f]).queue.len()
                == 0,
    ensures
        next_backlogged(flows, start, k) == Some(slot(start, j)),
    decreases j - k,
{
    if k < j {
        let f = slot(start, k);
        assert(place_in_round(start, f) == k);
        assert(flows[f].queue.len() == 0);
        lemma_scan_finds(flows, start, k + 1, j);
    }
}

/// Once the flows with a packet at the places before `p` have been served
/// in turn, the next departure serves the flow at place `p` if it has a
/// packet.
pub proof fn lemma_next_in_round_is_served(s: FqCoDelState, p: int)
    requires
        fq_shaped(s),
        0 <= p < NUM_FLOWS,
        backlogged(s, slot(round_start(s.last_dequeue_flow), p)),
    ensures
        fq_dequeue(served_up_to(s, round_start(s.last_dequeue_flow), p)) == served_up_to(
            s,
            round_start(s.last_dequeue_flow),
            p + 1,
        ),
{
    let start = round_start(s.last_dequeue_flow);
    lemma_served_up_to_shape(s, start, p);
    let t = served_up_to(s, start, p);
    let q = last_backlogged_place(s, start, p);
    let f = slot(start, p);
    assert(place_in_round(start, f) == p);
    let from = round_start(t.last_dequeue_flow);
    let j = p - q - 1;
    assert(from == slot(start, q + 1));
    assert(slot(from, j) == f);
    assert forall|g: int| 0 <= g < NUM_FLOWS && 0 <= place_in_round(from, g) < j implies (
    #[trigger] t.flows[g]).queue.len() == 0 by {
        assert(place_in_round(start, g) == q + 1 + place_in_round(from, g));
        assert(!backlogged(s, g));
    }
    lemma_scan_finds(t.flows, from, 0, j);
}

/// A round serves every flow once: the departures go through the flows
/// that have a packet in the order of the round, each flow giving up its
/// head, so that after as many departures as there are such flows among
/// the first `p` places exactly those flows have lost one packet each.
pub proof fn lemma_departures_follow_the_round(s: FqCoDelState, p: int)
    requires
        fq_shaped(s),
        0 <= p <= NUM_FLOWS,
    ensures
        after_departures(s, backlogged_before(s, round_start(s.last_dequeue_flow), p))
            == served_up_to(s, round_start(s.last_dequeue_flow), p),
    decreases p,
{
    if p > 0 {
        let start = round_start(s.last_dequeue_flow);
        lemma_departures_follow_the_round(s, p - 1);
        if backlogged(s, slot(start, p - 1)) {
            lemma_next_in_round_is_served(s, p - 1);
        }
    }
}

/// With `K` flows holding packets, `K` departures in a row take exactly
/// one packet from each of them, its head, and leave every other flow as
/// it was.
pub proof fn lemma_round_serves_each_flow_once(s: FqCoDelState)
    requires
        fq_shaped(s),
    ensures
        ({
            let start = round_start(s.last_dequeue_flow);
            let t = after_departures(s, backlogged_before(s, start, NUM_FLOWS as int));
            &&& t.flows.len() == NUM_FLOWS
            &&& forall|f: int|
                0 <= f < NUM_FLOWS ==> #[trigger] t.flows[f] == if backlogged(s, f) {
                    head_removed(s.flows[f])
                } else {
                    s.flows[f]
                }
        }),
{
    let start = round_start(s.last_dequeue_flow);
    lemma_departures_follow_the_round(s, NUM_FLOWS as int);
    lemma_served_up_to_shape(s, start, NUM_FLOWS as int);
}

/// FQ-CoDel over `NUM_FLOWS` flows that share one buffer. Flows are held
/// by id; a flow that has seen no arrival, or was pruned, has no entry.
#[derive(Debug)]
pub struct FqCoDel {
    flow_states: HashMap<u32, FlowState>,
    flow_queues: HashMap<u32, VecDeque<QueuedPacket>>,
    buffer_size: usize,
    last_dequeue_flow: Option<u32>,
}

impl FqCoDel {
    pub fn new(buffer_size: usize) -> (strategy: Self)
        ensures
            strategy.inv(),
            strategy.state() == fq_initial(buffer_size),
    {
        let strategy = FqCoDel {
            flow_states: HashMap::new(),
            flow_queues: HashMap::new(),
            buffer_size,
            last_dequeue_flow: None,
        };
        proof {
            assert(strategy.state().flows =~= fq_initial(buffer_size).flows);
            lemma_total_queued_empty(strategy.state().flows);
        }
        strategy
    }

    /// The flow of a packet.
    pub fn hash_flow(packet: &Packet) -> (flow_id: u32)
        ensures
            flow_id == flow_of(packet@.source_agent),
            flow_id < NUM_FLOWS,
    {
        packet.source() % NUM_FLOWS
    }

    /// Time from a drop to the next one after `count` drops.
    pub fn control_law(&self, count: u32) -> (r: u64)
        ensures
            r == control_interval(count),
            1 <= r <= INTERVAL_US,
    {
        control_law_for(count)
    }

    /// Packets in all flow queues together.
    pub fn total_queue_length(&self) -> (total: usize)
        requires
            self.inv(),
        ensures
            total == total_queued(self.state().flows),
    {
        let ghost flows = self.state().flows;
        let mut total: usize = 0;
        let mut i: u32 = 0;
        proof {
            assert(flows.take(0) =~= Seq::empty());
        }
        while i < NUM_FLOWS
            invariant
                i <= NUM_FLOWS,
                flows == self.state().flows,
                flows.len() == NUM_FLOWS,
                total == total_queued(flows.take(i as int)),
                total_queued(flows) <= usize::MAX,
            decreases NUM_FLOWS - i,
        {
            proof {
                lemma_total_queued_prefix(flows, i as int);
                lemma_total_queued_prefix(flows, i as int + 1);
            }
            total = total + self.flow_queue_length(i);
            i = i + 1;
        }
        proof {
            lemma_total_queued_prefix(flows, i as int);
        }
        total
    }

    /// Packets in the queue of one flow; none for a flow id out of range.
    pub fn flow_queue_length(&self, flow_id: u32) -> (len: usize)
        ensures
            flow_id < NUM_FLOWS ==> len == self.state().flows[flow_id as int].queue.len(),
            flow_id >= NUM_FLOWS ==> len == 0,
    {
        if flow_id >= NUM_FLOWS {
            return 0;
        }
        match self.flow_queues.get(&flow_id) {
            Some(queue) => queue.len(),
            None => 0,
        }
    }

    /// Head-of-line sojourn time of a flow, in microseconds: the time that
    /// the head of its queue has waited so far. The clock is read here.
    pub fn estimate_sojourn_time(&self, flow_id: u32) -> (micros: u64)
        ensures
            flow_id < NUM_FLOWS ==> exists|now: u64|
                micros == #[trigger] flow_head_sojourn(self.state().flows[flow_id as int], now),
            flow_id >= NUM_FLOWS ==> micros == 0,
    {
        self.estimate_sojourn_time_at(flow_id, now_micros())
    }

    /// Head-of-line sojourn time of a flow at `now`, in microseconds: the
    /// time that the head of its queue has waited; zero for a flow
    /// without packets and for a flow id out of range.
    pub fn estimate_sojourn_time_at(&self, flow_id: u32, now: u64) -> (micros: u64)
        ensures
            flow_id < NUM_FLOWS ==> micros == flow_head_sojourn(
                self.state().flows[flow_id as int],
                now,
            ),
            flow_id >= NUM_FLOWS ==> micros == 0,
    {
        if flow_id >= NUM_FLOWS {
            return 0;
        }
        match self.flow_queues.get(&flow_id) {
            Some(queue) => {
                if queue.len() > 0 {
                    let arrived = queue[0].enqueue_time;
                    if now >= arrived {
                        now - arrived
                    } else {
                        0
                    }
                } else {
                    0
                }
            },
            None => 0,
        }
    }

    /// The CoDel state of a flow, if it has one; none for a flow id out of
    /// range.
    pub fn flow_state(&self, flow_id: u32) -> (state: Option<FlowState>)
        ensures
            flow_id < NUM_FLOWS ==> state == self.state().flows[flow_id as int].codel,
            flow_id >= NUM_FLOWS ==> state is None,
    {
        if flow_id >= NUM_FLOWS {
            return None;
        }
        match self.flow_states.get(&flow_id) {
            Some(state) => Some(*state),
            None => None,
        }
    }

    /// The flow served last, if any packet has left yet.
    pub fn last_dequeue_flow(&self) -> (last: Option<u32>)
        ensures
            last == self.state().last_dequeue_flow,
    {
        self.last_dequeue_flow
    }
}

/// CoDel's verdict on an arrival to a flow whose head-of-line sojourn time
/// is `sojourn`.
pub fn decide_flow(st: FlowState, sojourn: u64, now: u64) -> (verdict: (FlowState, bool))
    ensures
        verdict == flow_verdict(st, sojourn, now),
{
    let mut next = st;
    if sojourn < TARGET_US {
        next.first_above_time = None;
        next.dropping = false;
        next.count = 0;
        return (next, false);
    }
    let first_above: u64 = match st.first_above_time {
        Some(t) => t,
        None => now,
    };
    next.first_above_time = Some(first_above);
    let above: u64 = if now >= first_above { now - first_above } else { 0 };
    if above >= INTERVAL_US {
        if !st.dropping {
            next.dropping = true;
            next.count = 1;
            next.drop_next = now;
            (next, true)
        } else if now >= st.drop_next {
            next.count = if st.count == u32::MAX { u32::MAX } else { st.count + 1 };
            let pace = control_law_for(next.count);
            next.drop_next = if pace > u64::MAX - now { u64::MAX } else { now + pace };
            (next, true)
        } else {
            (next, false)
        }
    } else {
        (next, false)
    }
}

impl Strategy for FqCoDel {
    type State = FqCoDelState;

    closed spec fn state(&self) -> FqCoDelState {
        FqCoDelState {
            buffer_size: self.buffer_size,
            flows: Seq::new(
                NUM_FLOWS as nat,
                |i: int| flow_at(self.flow_states@, self.flow_queues@, i as u32),
            ),
            last_dequeue_flow: self.last_dequeue_flow,
        }
    }

    open spec fn inv(&self) -> bool {
        fq_valid(self.state())
    }

    open spec fn enqueue_spec(
        pre: FqCoDelState,
        packet: PacketView,
        queue_len: usize,
        now: u64,
        draw: u32,
    ) -> (FqCoDelState, Action) {
        fq_enqueue(pre, packet, now)
    }

    open spec fn dequeue_spec(pre: FqCoDelState, queue_len: usize, now: u64) -> FqCoDelState {
        fq_dequeue(pre)
    }

    open spec fn update_spec(pre: FqCoDelState, queue_len: usize, avg_sojourn_us: u64, now: u64)
        -> FqCoDelState {
        fq_update(pre)
    }

    open spec fn reset_spec(pre: FqCoDelState, now: u64) -> FqCoDelState {
        fq_initial(pre.buffer_size)
    }

    open spec fn clone_spec(pre: FqCoDelState, now: u64) -> FqCoDelState {
        fq_initial(pre.buffer_size)
    }

    open spec fn name_spec(pre: FqCoDelState) -> Seq<char> {
        "FQ-CoDel"@
    }

    proof fn lemma_reset_forgets_arrival(
        pre: Self::State,
        packet: PacketView,
        queue_len: usize,
        now: u64,
        draw: u32,
        at: u64,
    ) {
    }

    proof fn lemma_reset_forgets_departure(pre: Self::State, queue_len: usize, now: u64, at: u64) {
    }

    proof fn lemma_reset_forgets_tick(
        pre: Self::State,
        queue_len: usize,
        avg_sojourn_us: u64,
        now: u64,
        at: u64,
    ) {
    }

    fn enqueue_at(&mut self, packet: &Packet, queue_len: usize, now: u64, draw: u32) -> (action:
        Action) {
        let ghost before = self.state();
        let flow_id = Self::hash_flow(packet);
        let total = self.total_queue_length();
        if total >= self.buffer_size {
            return Action::Drop;
        }
        let sojourn = self.estimate_sojourn_time_at(flow_id, now);
        let st = match self.flow_state(flow_id) {
            Some(st) => st,
            None => FlowState::new(),
        };
        let (st2, should_drop) = decide_flow(st, sojourn, now);
        let ghost flow = before.flows[flow_id as int];
        let _earlier = self.flow_states.insert(flow_id, st2);
        if should_drop {
            proof {
                let after = FlowView { codel: Some(st2), queue: flow.queue };
                assert(self.state().flows =~= before.flows.update(flow_id as int, after));
                lemma_total_queued_update(before.flows, flow_id as int, after);
            }
            Action::Drop
        } else {
            let mut queue = match self.flow_queues.remove(&flow_id) {
                Some(queue) => queue,
                None => VecDeque::new(),
            };
            assert(queue_view(queue) =~= flow.queue);
            queue.push_back(QueuedPacket { packet: packet.clone(), flow_id, enqueue_time: now });
            let _none = self.flow_queues.insert(flow_id, queue);
            proof {
                let after = FlowView {
                    codel: Some(st2),
                    queue: flow.queue.push(
                        QueuedView { packet: packet@, flow_id, enqueue_time: now },
                    ),
                };
                assert(self.state().flows[flow_id as int].queue =~= after.queue);
                assert(self.state().flows =~= before.flows.update(flow_id as int, after));
                lemma_total_queued_update(before.flows, flow_id as int, after);
            }
            Action::Accept
        }
    }

    fn dequeue_at(&mut self, queue_len: usize, now: u64) {
        let ghost before = self.state();
        let start: u32 = match self.last_dequeue_flow {
            None => 0,
            Some(f) => if f + 1 >= NUM_FLOWS {
                0
            } else {
                f + 1
            },
        };
        let mut k: u32 = 0;
        while k < NUM_FLOWS
            invariant
                k <= NUM_FLOWS,
                start < NUM_FLOWS,
                start == round_start(before.last_dequeue_flow),
                before == old(self).state(),
                self.state() == before,
                fq_valid(before),
                next_backlogged(before.flows, start as int, k as int) == next_backlogged(
                    before.flows,
                    start as int,
                    0,
                ),
            decreases NUM_FLOWS - k,
        {
            let idx: u32 = if start + k >= NUM_FLOWS {
                start + k - NUM_FLOWS
            } else {
                start + k
            };
            assert(idx == slot(start as int, k as int));
            if self.flow_queue_length(idx) > 0 {
                let ghost flow = before.flows[idx as int];
                assert(next_backlogged(before.flows, start as int, k as int) == Some(idx as int));
                let mut queue = match self.flow_queues.remove(&idx) {
                    Some(queue) => queue,
                    None => VecDeque::new(),
                };
                assert(queue_view(queue) =~= flow.queue);
                let _head = queue.pop_front();
                let _none = self.flow_queues.insert(idx, queue);
                self.last_dequeue_flow = Some(idx);
                proof {
                    let after = FlowView {
                        queue: flow.queue.subrange(1, flow.queue.len() as int),
                        ..flow
                    };
                    assert(self.state().flows[idx as int].queue =~= after.queue);
                    assert(self.state().flows =~= before.flows.update(idx as int, after));
                    lemma_total_queued_update(before.flows, idx as int, after);
                }
                return ;
            }
            k = k + 1;
        }
    }

    fn update_at(&mut self, queue_len: usize, avg_sojourn_us: u64, now: u64) {
        let ghost before = self.state();
        let mut i: u32 = 0;
        while i < NUM_FLOWS
            invariant
                i <= NUM_FLOWS,
                before.flows.len() == NUM_FLOWS,
                self.buffer_size == before.buffer_size,
                self.last_dequeue_flow == before.last_dequeue_flow,
                forall|j: int|
                    0 <= j < i ==> #[trigger] self.state().flows[j] == pruned(before.flows[j]),
                forall|j: int|
                    i <= j < NUM_FLOWS ==> #[trigger] self.state().flows[j] == before.flows[j],
            decreases NUM_FLOWS - i,
        {
            let ghost here = self.state();
            let idle = match self.flow_state(i) {
                Some(st) => !st.dropping && st.first_above_time.is_none(),
                None => false,
            };
            if self.flow_queue_length(i) == 0 {
                if idle {
                    let _state = self.flow_states.remove(&i);
                }
                let _queue = self.flow_queues.remove(&i);
                proof {
                    assert(self.state().flows[i as int].queue =~= here.flows[i as int].queue);
                    assert forall|j: int| 0 <= j < NUM_FLOWS && j != i implies #[trigger] self.state().flows[j]
                        == here.flows[j] by {}
                }
            }
            i = i + 1;
        }
        proof {
            assert(self.state().flows =~= fq_update(before).flows);
            lemma_total_queued_same_queues(before.flows, self.state().flows);
        }
    }

    fn name(&self) -> (name: &'static str) {
        "FQ-CoDel"
    }

    fn reset_at(&mut self, now: u64) {
        self.flow_states.clear();
        self.flow_queues.clear();
        self.last_dequeue_flow = None;
        proof {
            assert(self.state().flows =~= fq_initial(self.buffer_size).flows);
            lemma_total_queued_empty(self.state().flows);
        }
    }

    fn clone_box_at(&self, now: u64) -> (copy: Box<Self>) {
        Box::new(FqCoDel::new(self.buffer_size))
    }
}

} // verus!
