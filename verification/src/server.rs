//! The server queue engine: a bounded buffer coupled to a policy, filled by
//! arrivals and emptied by a drainer one packet per tick.

use crate::metrics::{after_received, bumped, MetricsCollector, MetricsView};
use crate::network::packet::{sojourn_micros, Packet, PacketView, MAX_SOJOURN_MICROS};
use crate::network::PACKET_BITS;
use crate::strategies::{random_draw, Action, Strategy, PROB_SCALE};
use std::collections::VecDeque;
use vstd::prelude::*;

verus! {

/// The policy's periodic tick comes with every third tick of the drainer.
pub const UPDATE_EVERY: u32 = 3;

/// Number of recent sojourn times that the mean is taken over.
pub const SOJOURN_WINDOW: usize = 100;

/// Nanoseconds in a second.
pub const NANOS_PER_SECOND: u128 = 1_000_000_000;

/// What a server holds, as plain values, over the abstract state `T` of its
/// policy.
pub struct ServerView<T> {
    pub id: u32,
    pub addr: Seq<char>,
    /// Packets that the buffer may hold.
    pub buffer_size: usize,
    pub bandwidth_bps: u64,
    /// The buffer, head first.
    pub buffer: Seq<PacketView>,
    pub strategy: T,
    /// Sojourn times of the packets drained last, oldest first, in
    /// microseconds.
    pub recent_sojourn_times: Seq<u64>,
    /// Drainer ticks since the policy's last periodic tick.
    pub update_counter: u32,
    pub packets_processed: u64,
}

/// The sum of a sequence.
pub open spec fn seq_sum(s: Seq<u64>) -> nat
    decreases s.len(),
{
    if s.len() == 0 {
        0
    } else {
        (seq_sum(s.drop_last()) + s.last()) as nat
    }
}

/// The mean of the window, rounded down; zero for an empty window.
pub open spec fn window_mean(window: Seq<u64>) -> u64 {
    if window.len() == 0 {
        0
    } else {
        (seq_sum(window) / window.len()) as u64
    }
}

/// The window after one more sojourn time: the oldest leaves once more
/// than `SOJOURN_WINDOW` are held.
pub open spec fn window_push(window: Seq<u64>, sojourn: u64) -> Seq<u64> {
    let longer = window.push(sojourn);
    if longer.len() > SOJOURN_WINDOW {
        longer.subrange(1, longer.len() as int)
    } else {
        longer
    }
}

/// Fate of an arrival: that which the policy decided, but a drop once the
/// buffer is full.
pub open spec fn effective_action(decided: Action, queue_len: nat, buffer_size: usize) -> Action {
    if queue_len >= buffer_size {
        Action::Drop
    } else {
        decided
    }
}

/// An arrival at `now`: the policy decides on the length before insertion;
/// an accepted or marked packet joins the tail while there is room; a drop
/// is counted; the length after the decision is recorded.
pub open spec fn server_enqueue<S: Strategy>(
    pre: ServerView<S::State>,
    metrics: MetricsView,
    packet: PacketView,
    now: u64,
    draw: u32,
) -> (ServerView<S::State>, MetricsView, Action) {
    let (strategy, decided) = S::enqueue_spec(
        pre.strategy,
        packet,
        pre.buffer.len() as usize,
        now,
        draw,
    );
    let action = effective_action(decided, pre.buffer.len(), pre.buffer_size);
    if action == Action::Drop {
        (
            ServerView { strategy, ..pre },
            MetricsView {
                packets_dropped: bumped(metrics.packets_dropped),
                queue_lengths: metrics.queue_lengths.push(pre.buffer.len() as usize),
                ..metrics
            },
            action,
        )
    } else {
        (
            ServerView { strategy, buffer: pre.buffer.push(packet), ..pre },
            MetricsView {
                queue_lengths: metrics.queue_lengths.push((pre.buffer.len() + 1) as usize),
                ..metrics
            },
            action,
        )
    }
}

/// The policy's part of a drainer tick that found no packet or has
/// handled its packet: every third tick, the periodic update with the mean
/// of the window.
pub open spec fn server_cadence<S: Strategy>(pre: ServerView<S::State>, now: u64) -> ServerView<
    S::State,
> {
    if pre.update_counter + 1 >= UPDATE_EVERY {
        ServerView {
            update_counter: 0,
            strategy: S::update_spec(
                pre.strategy,
                pre.buffer.len() as usize,
                window_mean(pre.recent_sojourn_times),
                now,
            ),
            ..pre
        }
    } else {
        ServerView { update_counter: (pre.update_counter + 1) as u32, ..pre }
    }
}

/// One tick of the drainer at `now`: the head, if there is one, leaves;
/// its sojourn time is counted and joins the window; the policy is told of
/// the departure; then comes the cadence of the periodic update.
pub open spec fn server_drain<S: Strategy>(
    pre: ServerView<S::State>,
    metrics: MetricsView,
    now: u64,
) -> (ServerView<S::State>, MetricsView) {
    if pre.buffer.len() > 0 {
        let rest = pre.buffer.subrange(1, pre.buffer.len() as int);
        let sojourn = sojourn_micros(pre.buffer[0].created_at_micros, now as u128);
        let served = ServerView {
            buffer: rest,
            packets_processed: bumped(pre.packets_processed),
            recent_sojourn_times: window_push(pre.recent_sojourn_times, sojourn),
            strategy: S::dequeue_spec(pre.strategy, rest.len() as usize, now),
            ..pre
        };
        (server_cadence::<S>(served, now), after_received(metrics, sojourn))
    } else {
        (server_cadence::<S>(pre, now), metrics)
    }
}

/// Time on the wire of one nominal packet at `bandwidth_bps`, in
/// nanoseconds, rounded down.
pub open spec fn packet_time_nanos(bandwidth_bps: u64) -> u128
    recommends
        bandwidth_bps > 0,
{
    (PACKET_BITS * NANOS_PER_SECOND / (bandwidth_bps as int)) as u128
}

/// The window holds no more sojourn times than it may, and each is one
/// that a packet can report.
pub open spec fn window_valid(window: Seq<u64>) -> bool {
    &&& window.len() <= SOJOURN_WINDOW
    &&& forall|i: int| 0 <= i < window.len() ==> #[trigger] window[i] <= MAX_SOJOURN_MICROS
}

/// A server: a bounded buffer, the policy that governs it, and the state
/// of its drainer.
pub struct Server<S: Strategy> {
    id: u32,
    addr: String,
    buffer: VecDeque<Packet>,
    strategy: S,
    buffer_size: usize,
    bandwidth_bps: u64,
    recent_sojourn_times: Vec<u64>,
    update_counter: u32,
    packets_processed: u64,
}

impl<S: Strategy> Server<S> {
    /// What the server holds, as plain values.
    pub closed spec fn view(&self) -> ServerView<S::State> {
        ServerView {
            id: self.id,
            addr: self.addr@,
            buffer_size: self.buffer_size,
            bandwidth_bps: self.bandwidth_bps,
            buffer: Seq::new(self.buffer@.len(), |i: int| self.buffer@[i]@),
            strategy: self.strategy.state(),
            recent_sojourn_times: self.recent_sojourn_times@,
            update_counter: self.update_counter,
            packets_processed: self.packets_processed,
        }
    }

    /// What holds of every server between calls: the buffer is within its
    /// bound, the window within its, and the policy is sound.
    pub closed spec fn inv(&self) -> bool {
        &&& self.buffer@.len() <= self.buffer_size
        &&& window_valid(self.recent_sojourn_times@)
        &&& self.update_counter < UPDATE_EVERY
        &&& self.strategy.inv()
    }

    /// The buffer of a sound server is within its bound.
    pub proof fn lemma_buffer_bounded(&self)
        requires
            self.inv(),
        ensures
            self@.buffer.len() <= self@.buffer_size,
            window_valid(self@.recent_sojourn_times),
            self@.update_counter < UPDATE_EVERY,
    {
    }

    /// A server with an empty buffer of `buffer_size` packets.
    pub fn new(id: u32, addr: String, strategy: S, buffer_size: usize, bandwidth_bps: u64) -> (server:
        Self)
        requires
            strategy.inv(),
        ensures
            server.inv(),
            server@ == (ServerView {
                id,
                addr: addr@,
                buffer_size,
                bandwidth_bps,
                buffer: Seq::empty(),
                strategy: strategy.state(),
                recent_sojourn_times: Seq::empty(),
                update_counter: 0,
                packets_processed: 0,
            }),
    {
        let server = Server {
            id,
            addr,
            buffer: VecDeque::new(),
            strategy,
            buffer_size,
            bandwidth_bps,
            recent_sojourn_times: Vec::new(),
            update_counter: 0,
            packets_processed: 0,
        };
        assert(server@.buffer =~= Seq::empty());
        server
    }

    pub fn id(&self) -> (id: u32)
        ensures
            id == self@.id,
    {
        self.id
    }

    /// The endpoint the server is bound to.
    pub fn addr(&self) -> (addr: &String)
        ensures
            addr@ == self@.addr,
    {
        &self.addr
    }

    /// Packets waiting in the buffer.
    pub fn queue_len(&self) -> (len: usize)
        ensures
            len == self@.buffer.len(),
    {
        self.buffer.len()
    }

    /// Packets that the buffer may hold.
    pub fn buffer_size(&self) -> (size: usize)
        ensures
            size == self@.buffer_size,
    {
        self.buffer_size
    }

    /// Packets that have left the buffer.
    pub fn packets_processed(&self) -> (n: u64)
        ensures
            n == self@.packets_processed,
    {
        self.packets_processed
    }

    pub fn bandwidth_bps(&self) -> (bps: u64)
        ensures
            bps == self@.bandwidth_bps,
    {
        self.bandwidth_bps
    }

    /// The policy that governs the buffer.
    pub fn strategy(&self) -> (strategy: &S)
        ensures
            strategy.state() == self@.strategy,
    {
        &self.strategy
    }

    /// Time between two ticks of the drainer, in nanoseconds: the time on
    /// the wire of one nominal packet. `None` for a link without
    /// bandwidth, which never drains.
    pub fn packet_time(&self) -> (nanos: Option<u128>)
        ensures
            self@.bandwidth_bps == 0 <==> nanos is None,
            nanos matches Some(t) ==> t == packet_time_nanos(self@.bandwidth_bps),
    {
        if self.bandwidth_bps == 0 {
            None
        } else {
            Some((PACKET_BITS as u128) * NANOS_PER_SECOND / (self.bandwidth_bps as u128))
        }
    }

    /// Handles an arrival at `now` (microseconds) with `draw` as the
    /// policy's random draw, and returns the packet's fate.
    pub fn enqueue_packet_at(
        &mut self,
        packet: Packet,
        metrics: &mut MetricsCollector,
        now: u64,
        draw: u32,
    ) -> (action: Action)
        requires
            old(self).inv(),
            old(metrics).inv(),
        ensures
            final(self).inv(),
            final(metrics).inv(),
            (final(self)@, final(metrics)@, action) == server_enqueue::<S>(
                old(self)@,
                old(metrics)@,
                packet@,
                now,
                draw,
            ),
            final(self)@.buffer.len() <= final(self)@.buffer_size,
    {
        let ghost before = self@;
        let len = self.buffer.len();
        let decided = self.strategy.enqueue_at(&packet, len, now, draw);
        let action = if len >= self.buffer_size { Action::Drop } else { decided };
        match action {
            Action::Drop => {
                metrics.packet_dropped();
            },
            _ => {
                self.buffer.push_back(packet);
                assert(self@.buffer =~= before.buffer.push(packet@));
            },
        }
        metrics.record_queue_length(self.buffer.len());
        action
    }

    /// Handles an arrival and returns the packet's fate. The collector's
    /// clock is read and the policy's random draw is made here.
    pub fn enqueue_packet(&mut self, packet: Packet, metrics: &mut MetricsCollector) -> (action:
        Action)
        requires
            old(self).inv(),
            old(metrics).inv(),
        ensures
            final(self).inv(),
            final(metrics).inv(),
            exists|now: u64, draw: u32|
                draw < PROB_SCALE && (final(self)@, final(metrics)@, action)
                    == #[trigger] server_enqueue::<S>(
                    old(self)@,
                    old(metrics)@,
                    packet@,
                    now,
                    draw,
                ),
            final(self)@.buffer.len() <= final(self)@.buffer_size,
    {
        let now = metrics.now();
        let draw = random_draw();
        self.enqueue_packet_at(packet, metrics, now, draw)
    }

    /// The mean of the recent sojourn times, in microseconds.
    pub fn recent_mean_sojourn(&self) -> (mean: u64)
        requires
            self.inv(),
        ensures
            mean == window_mean(self@.recent_sojourn_times),
    {
        mean_of(&self.recent_sojourn_times)
    }

    /// One tick of the drainer. Returns the packet that left the buffer,
    /// if there was one. The collector's clock is read here.
    pub fn drain_tick(&mut self, metrics: &mut MetricsCollector) -> (delivered: Option<Packet>)
        requires
            old(self).inv(),
            old(metrics).inv(),
        ensures
            final(self).inv(),
            final(metrics).inv(),
            exists|now: u64|
                (final(self)@, final(metrics)@) == #[trigger] server_drain::<S>(
                    old(self)@,
                    old(metrics)@,
                    now,
                ),
            old(self)@.buffer.len() > 0 <==> delivered is Some,
            delivered matches Some(p) ==> p@ == old(self)@.buffer[0],
    {
        let now = metrics.now();
        self.drain_tick_at(metrics, now)
    }

    /// One tick of the drainer at `now` (microseconds). Returns the packet
    /// that left the buffer, if there was one.
    pub fn drain_tick_at(&mut self, metrics: &mut MetricsCollector, now: u64) -> (delivered: Option<
        Packet,
    >)
        requires
            old(self).inv(),
            old(metrics).inv(),
        ensures
            final(self).inv(),
            final(metrics).inv(),
            (final(self)@, final(metrics)@) == server_drain::<S>(old(self)@, old(metrics)@, now),
            old(self)@.buffer.len() > 0 <==> delivered is Some,
            delivered matches Some(p) ==> p@ == old(self)@.buffer[0],
    {
        let ghost before = self@;
        let delivered = self.buffer.pop_front();
        match &delivered {
            Some(packet) => {
                assert(self@.buffer =~= before.buffer.subrange(1, before.buffer.len() as int));
                let sojourn = packet.sojourn_at(now as u128);
                if self.packets_processed < u64::MAX {
                    self.packets_processed = self.packets_processed + 1;
                }
                metrics.packet_received(sojourn);
                self.recent_sojourn_times.push(sojourn);
                if self.recent_sojourn_times.len() > SOJOURN_WINDOW {
                    let _oldest = self.recent_sojourn_times.remove(0);
                }
                assert(self.recent_sojourn_times@ =~= window_push(
                    before.recent_sojourn_times,
                    sojourn,
                ));
                let len = self.buffer.len();
                self.strategy.dequeue_at(len, now);
            },
            None => {
            },
        }
        self.update_counter = self.update_counter + 1;
        if self.update_counter >= UPDATE_EVERY {
            self.update_counter = 0;
            let len = self.buffer.len();
            let mean = mean_of(&self.recent_sojourn_times);
            self.strategy.update_at(len, mean, now);
        }
        delivered
    }
}

/// The sum of some numbers is at most their count times the largest
/// number there is.
pub proof fn lemma_seq_sum_bound(s: Seq<u64>)
    ensures
        seq_sum(s) <= s.len() * u64::MAX,
    decreases s.len(),
{
    if s.len() > 0 {
        lemma_seq_sum_bound(s.drop_last());
        assert((s.len() - 1) * u64::MAX + u64::MAX == s.len() * u64::MAX) by (nonlinear_arith);
    }
}

/// The mean of some sojourn times, rounded down; zero where there is
/// none.
pub fn mean_of(window: &Vec<u64>) -> (mean: u64)
    ensures
        mean == window_mean(window@),
{
    let n = window.len();
    if n == 0 {
        return 0;
    }
    let mut sum: u128 = 0;
    let mut i: usize = 0;
    proof {
        assert(window@.take(0) =~= Seq::<u64>::empty());
    }
    while i < n
        invariant
            i <= n,
            n == window@.len(),
            sum == seq_sum(window@.take(i as int)),
        decreases n - i,
    {
        proof {
            assert(window@.take(i as int + 1).drop_last() =~= window@.take(i as int));
            lemma_seq_sum_bound(window@.take(i as int));
            assert(i * u64::MAX <= usize::MAX * u64::MAX) by (nonlinear_arith)
                requires
                    i <= usize::MAX,
            ;
        }
        sum = sum + window[i] as u128;
        i = i + 1;
    }
    proof {
        assert(window@.take(n as int) =~= window@);
        lemma_seq_sum_bound(window@);
        assert(sum / (n as u128) <= u64::MAX) by (nonlinear_arith)
            requires
                sum <= n * u64::MAX,
                n > 0,
        ;
    }
    (sum / (n as u128)) as u64
}

} // verus!
