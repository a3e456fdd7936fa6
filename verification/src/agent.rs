//! Traffic generators: the patterns they follow, the packets they make, and
//! their delivery to servers in one process.

use crate::clock::now_micros;
use crate::metrics::{
    bumped, lemma_ratio_at_most_one, snapshot_of, MetricsCollector, MetricsView, PPM,
};
use crate::network::packet::{Packet, PacketId, PacketView, Priority};
use crate::network::PACKET_SIZE_BYTES;
use crate::server::{server_drain, server_enqueue, Server, ServerView};
use crate::strategies::{random_below, random_draw, Action, Strategy, PROB_SCALE};
use crate::text::{lowercase_of, lowercased, same_text};
use vstd::prelude::*;

verus! {

/// Time between two packets of a burst, in microseconds.
pub const BURST_SPACING_US: u64 = 100;

/// Thousandths of a packet per second in one packet per millisecond.
pub const MPPS_PER_PACKET_PER_MS: u64 = 1_000_000;

/// How an agent spaces its packets. Rates are thousandths of a packet per
/// second.
#[derive(Debug, Clone, Copy, PartialEq, Eq, Structural)]
pub enum TrafficPattern {
    Constant { rate_mpps: u64 },
    Bursty { avg_rate_mpps: u64, burst_size: u32 },
    Poisson { lambda_mpps: u64 },
    PeakTraffic { base_rate_mpps: u64, peak_rate_mpps: u64, peak_duration_us: u64 },
}

/// What an agent does next.
#[derive(Debug, Clone, Copy, PartialEq, Eq, Structural)]
pub enum Pacing {
    /// One packet every `interval_ms` milliseconds.
    Steady { interval_ms: u64 },
    /// Every `interval_ms` milliseconds, `burst_size` packets that are
    /// `spacing_us` microseconds apart.
    Bursts { interval_ms: u64, burst_size: u32, spacing_us: u64 },
    /// One packet after each wait drawn from the exponential distribution
    /// of rate `lambda_mpps`.
    Exponential { lambda_mpps: u64 },
}

/// Milliseconds between two packets at a rate: `1000 / rate`, rounded
/// down, at least one; without end at rate zero.
pub open spec fn steady_interval_ms(rate_mpps: u64) -> u64 {
    if rate_mpps == 0 {
        u64::MAX
    } else if MPPS_PER_PACKET_PER_MS / rate_mpps < 1 {
        1
    } else {
        MPPS_PER_PACKET_PER_MS / rate_mpps
    }
}

/// Milliseconds between two bursts: `burst_size / rate * 1000`, rounded
/// down; without end at rate zero.
pub open spec fn burst_interval_ms(avg_rate_mpps: u64, burst_size: u32) -> u64 {
    if avg_rate_mpps == 0 {
        u64::MAX
    } else {
        (burst_size * MPPS_PER_PACKET_PER_MS / (avg_rate_mpps as int)) as u64
    }
}

/// What an agent of a pattern does once `elapsed_us` microseconds of its
/// run have passed.
pub open spec fn pacing_of(pattern: TrafficPattern, elapsed_us: u64) -> Pacing {
    match pattern {
        TrafficPattern::Constant { rate_mpps } => Pacing::Steady {
            interval_ms: steady_interval_ms(rate_mpps),
        },
        TrafficPattern::Bursty { avg_rate_mpps, burst_size } => Pacing::Bursts {
            interval_ms: burst_interval_ms(avg_rate_mpps, burst_size),
            burst_size,
            spacing_us: BURST_SPACING_US,
        },
        TrafficPattern::Poisson { lambda_mpps } => Pacing::Exponential { lambda_mpps },
        TrafficPattern::PeakTraffic { base_rate_mpps, peak_rate_mpps, peak_duration_us } => {
            if elapsed_us < peak_duration_us {
                Pacing::Steady { interval_ms: steady_interval_ms(peak_rate_mpps) }
            } else {
                Pacing::Steady { interval_ms: steady_interval_ms(base_rate_mpps) }
            }
        },
    }
}

/// Milliseconds between two packets at a rate.
pub fn steady_interval(rate_mpps: u64) -> (millis: u64)
    ensures
        millis == steady_interval_ms(rate_mpps),
        millis >= 1,
{
    if rate_mpps == 0 {
        u64::MAX
    } else if MPPS_PER_PACKET_PER_MS / rate_mpps < 1 {
        1
    } else {
        MPPS_PER_PACKET_PER_MS / rate_mpps
    }
}

impl TrafficPattern {
    /// What an agent of this pattern does once `elapsed_us` microseconds
    /// of its run have passed.
    pub fn pacing(&self, elapsed_us: u64) -> (pacing: Pacing)
        ensures
            pacing == pacing_of(*self, elapsed_us),
    {
        match *self {
            TrafficPattern::Constant { rate_mpps } => Pacing::Steady {
                interval_ms: steady_interval(rate_mpps),
            },
            TrafficPattern::Bursty { avg_rate_mpps, burst_size } => {
                let interval_ms = if avg_rate_mpps == 0 {
                    u64::MAX
                } else {
                    assert(burst_size * MPPS_PER_PACKET_PER_MS <= u32::MAX
                        * MPPS_PER_PACKET_PER_MS) by (nonlinear_arith)
                        requires
                            burst_size <= u32::MAX,
                    ;
                    (burst_size as u64) * MPPS_PER_PACKET_PER_MS / avg_rate_mpps
                };
                Pacing::Bursts { interval_ms, burst_size, spacing_us: BURST_SPACING_US }
            },
            TrafficPattern::Poisson { lambda_mpps } => Pacing::Exponential { lambda_mpps },
            TrafficPattern::PeakTraffic { base_rate_mpps, peak_rate_mpps, peak_duration_us } => {
                let rate = if elapsed_us < peak_duration_us {
                    peak_rate_mpps
                } else {
                    base_rate_mpps
                };
                Pacing::Steady { interval_ms: steady_interval(rate) }
            },
        }
    }
}

/// Packets in a burst of the bursty pattern that a name selects.
pub const NAMED_BURST_SIZE: u32 = 10;

/// The pattern that a lower-case name selects, with `base_mpps` as its
/// rate; `peak_mpps` and `peak_duration_us` serve the peak pattern alone.
pub open spec fn pattern_named(
    lowered: Seq<char>,
    base_mpps: u64,
    peak_mpps: u64,
    peak_duration_us: u64,
) -> Option<TrafficPattern> {
    if lowered == "constant"@ {
        Some(TrafficPattern::Constant { rate_mpps: base_mpps })
    } else if lowered == "bursty"@ {
        Some(TrafficPattern::Bursty { avg_rate_mpps: base_mpps, burst_size: NAMED_BURST_SIZE })
    } else if lowered == "poisson"@ {
        Some(TrafficPattern::Poisson { lambda_mpps: base_mpps })
    } else if lowered == "peak"@ {
        Some(
            TrafficPattern::PeakTraffic {
                base_rate_mpps: base_mpps,
                peak_rate_mpps: peak_mpps,
                peak_duration_us,
            },
        )
    } else {
        None
    }
}

/// The pattern that a name in lower case selects; `None` for a name that
/// selects none.
pub fn pattern_for(lowered: &str, base_mpps: u64, peak_mpps: u64, peak_duration_us: u64) -> (pattern:
    Option<TrafficPattern>)
    ensures
        pattern == pattern_named(lowered@, base_mpps, peak_mpps, peak_duration_us),
{
    if same_text(lowered, "constant") {
        Some(TrafficPattern::Constant { rate_mpps: base_mpps })
    } else if same_text(lowered, "bursty") {
        Some(TrafficPattern::Bursty { avg_rate_mpps: base_mpps, burst_size: NAMED_BURST_SIZE })
    } else if same_text(lowered, "poisson") {
        Some(TrafficPattern::Poisson { lambda_mpps: base_mpps })
    } else if same_text(lowered, "peak") {
        Some(
            TrafficPattern::PeakTraffic {
                base_rate_mpps: base_mpps,
                peak_rate_mpps: peak_mpps,
                peak_duration_us,
            },
        )
    } else {
        None
    }
}

/// The pattern that a name selects, whatever its case; `None` for a name
/// that selects none.
pub fn parse_traffic_pattern(
    name: &str,
    base_mpps: u64,
    peak_mpps: u64,
    peak_duration_us: u64,
) -> (pattern: Option<TrafficPattern>)
    ensures
        pattern == pattern_named(lowercase_of(name@), base_mpps, peak_mpps, peak_duration_us),
{
    let lowered = lowercased(name);
    pattern_for(lowered.as_str(), base_mpps, peak_mpps, peak_duration_us)
}

/// What an agent holds, as plain values.
pub struct AgentView {
    pub id: u32,
    /// The endpoints of the servers.
    pub server_addrs: Seq<Seq<char>>,
    /// The id of the packet made next.
    pub packet_counter: u64,
    pub traffic_pattern: TrafficPattern,
}

/// The counter after one more packet; it starts over after the largest
/// value.
pub open spec fn next_counter(counter: u64) -> u64 {
    if counter == u64::MAX {
        0
    } else {
        (counter + 1) as u64
    }
}

/// The label of the server at an index: the index, cut to 32 bits.
pub open spec fn server_label(server_idx: usize) -> u32 {
    ((server_idx as int) % 0x1_0000_0000) as u32
}

/// The packet that an agent makes at `now_micros` for the server at
/// `server_idx`: of nominal size and normal priority, numbered by the
/// agent's counter.
pub open spec fn packet_made(agent: AgentView, server_idx: usize, now_micros: u128) -> PacketView {
    PacketView {
        id: agent.packet_counter,
        source_agent: agent.id,
        destination_server: server_label(server_idx),
        payload_size: PACKET_SIZE_BYTES,
        priority: Priority::Normal,
        created_at_micros: now_micros,
        data: Seq::new(PACKET_SIZE_BYTES as nat, |i: int| 0u8),
    }
}

/// The counters after a packet was counted as sent.
pub open spec fn after_sent(m: MetricsView) -> MetricsView {
    MetricsView { packets_sent: bumped(m.packets_sent), ..m }
}

/// The counters after a send that failed: the packet is counted as sent
/// and as dropped.
pub open spec fn after_failed_send(m: MetricsView) -> MetricsView {
    MetricsView {
        packets_sent: bumped(m.packets_sent),
        packets_dropped: bumped(m.packets_dropped),
        ..m
    }
}

/// The counters after a packet was handed to the transport: counted as
/// sent where that went well, as sent and as dropped where it failed.
pub open spec fn after_delivery(m: MetricsView, delivered: bool) -> MetricsView {
    if delivered {
        after_sent(m)
    } else {
        after_failed_send(m)
    }
}

/// Delivery of a packet to a server of the same process at `now`: the
/// packet is counted as sent and handed to the server.
pub open spec fn deliver<S: Strategy>(
    server: ServerView<S::State>,
    metrics: MetricsView,
    packet: PacketView,
    now: u64,
    draw: u32,
) -> (ServerView<S::State>, MetricsView, Action) {
    server_enqueue::<S>(server, after_sent(metrics), packet, now, draw)
}

/// Delivery of the packet that an agent makes at `now` to a server of the
/// same process.
pub open spec fn agent_delivery<S: Strategy>(
    server: ServerView<S::State>,
    metrics: MetricsView,
    agent: AgentView,
    server_idx: usize,
    now: u64,
    draw: u32,
) -> (ServerView<S::State>, MetricsView, Action) {
    deliver::<S>(server, metrics, packet_made(agent, server_idx, now as u128), now, draw)
}

/// Every packet counted as sent is counted as received or as dropped, or
/// waits in a buffer: `queued` is the number of packets in all buffers
/// together. (Counters stop at their largest value; nothing is claimed
/// once the count of sent packets has reached it.)
pub open spec fn accounted(metrics: MetricsView, queued: nat) -> bool {
    metrics.packets_sent < u64::MAX ==> metrics.packets_received + metrics.packets_dropped
        + queued == metrics.packets_sent
}

/// While every packet is accounted for, no more packets are counted as
/// received or dropped than as sent.
pub proof fn lemma_accounted_bounds(metrics: MetricsView, queued: nat)
    requires
        accounted(metrics, queued),
        metrics.packets_sent < u64::MAX,
    ensures
        metrics.packets_received + metrics.packets_dropped <= metrics.packets_sent,
        metrics.packets_dropped <= metrics.packets_sent,
{
}

/// A delivery keeps every packet accounted for; `elsewhere` is the number
/// of packets in the buffers of the other servers.
pub proof fn lemma_delivery_accounted<S: Strategy>(
    server: ServerView<S::State>,
    metrics: MetricsView,
    elsewhere: nat,
    packet: PacketView,
    now: u64,
    draw: u32,
)
    requires
        accounted(metrics, server.buffer.len() + elsewhere),
    ensures
        accounted(
            deliver::<S>(server, metrics, packet, now, draw).1,
            deliver::<S>(server, metrics, packet, now, draw).0.buffer.len() + elsewhere,
        ),
{
}

/// A send that failed keeps every packet accounted for: the packet that
/// is counted as sent is counted as dropped too. A send that went well
/// adds a packet that is on its way; it is accounted for as soon as it is
/// queued or dropped at its server.
pub proof fn lemma_failed_send_accounted(metrics: MetricsView, queued: nat)
    requires
        accounted(metrics, queued),
    ensures
        accounted(after_delivery(metrics, false), queued),
        accounted(after_delivery(metrics, true), queued + 1),
{
}

/// Handing a packet to the transport never lets the packets counted as
/// received and dropped outnumber those counted as sent, whether the send
/// goes well or fails. (Counters stop at their largest value; nothing is
/// claimed once the count of sent packets has reached it.)
pub proof fn lemma_delivery_keeps_bound(metrics: MetricsView, delivered: bool)
    requires
        metrics.packets_received + metrics.packets_dropped <= metrics.packets_sent,
        metrics.packets_sent < u64::MAX,
    ensures
        ({
            let after = after_delivery(metrics, delivered);
            &&& after.packets_received + after.packets_dropped <= after.packets_sent
            &&& after.packets_sent == metrics.packets_sent + 1
            &&& delivered ==> after.packets_dropped == metrics.packets_dropped
            &&& !delivered ==> after.packets_dropped == metrics.packets_dropped + 1
        }),
{
}

/// A tick of a drainer keeps every packet accounted for; `elsewhere` is
/// the number of packets in the buffers of the other servers.
pub proof fn lemma_drain_accounted<S: Strategy>(
    server: ServerView<S::State>,
    metrics: MetricsView,
    elsewhere: nat,
    now: u64,
)
    requires
        accounted(metrics, server.buffer.len() + elsewhere),
    ensures
        accounted(
            server_drain::<S>(server, metrics, now).1,
            server_drain::<S>(server, metrics, now).0.buffer.len() + elsewhere,
        ),
{
}

/// A delivery leaves the buffer within its bound, and so does a tick of
/// the drainer.
pub proof fn lemma_buffer_stays_bounded<S: Strategy>(
    server: ServerView<S::State>,
    metrics: MetricsView,
    packet: PacketView,
    now: u64,
    draw: u32,
)
    requires
        server.buffer.len() <= server.buffer_size,
    ensures
        deliver::<S>(server, metrics, packet, now, draw).0.buffer.len() <= server.buffer_size,
        deliver::<S>(server, metrics, packet, now, draw).0.buffer_size == server.buffer_size,
        server_drain::<S>(server, metrics, now).0.buffer.len() <= server.buffer_size,
        server_drain::<S>(server, metrics, now).0.buffer_size == server.buffer_size,
{
}

/// What happens at a server that is fed in its own process.
pub enum Traffic {
    /// A packet is made, counted as sent, and handed to the server.
    Delivery { packet: PacketView, now: u64, draw: u32 },
    /// A packet is made for the server and its send fails.
    Failure,
    /// The drainer ticks.
    Tick { now: u64 },
}

/// The server and the counters after a sequence of deliveries and ticks.
pub open spec fn serve<S: Strategy>(
    server: ServerView<S::State>,
    metrics: MetricsView,
    traffic: Seq<Traffic>,
) -> (ServerView<S::State>, MetricsView)
    decreases traffic.len(),
{
    if traffic.len() == 0 {
        (server, metrics)
    } else {
        let (mid_server, mid_metrics) = serve::<S>(server, metrics, traffic.drop_last());
        match traffic.last() {
            Traffic::Delivery { packet, now, draw } => {
                let (s, m, action) = deliver::<S>(mid_server, mid_metrics, packet, now, draw);
                (s, m)
            },
            Traffic::Failure => (mid_server, after_failed_send(mid_metrics)),
            Traffic::Tick { now } => server_drain::<S>(mid_server, mid_metrics, now),
        }
    }
}

/// At every moment of a server that is fed in its own process, whether or
/// not sends fail, the queue is within the buffer size, every packet sent is received, dropped or
/// queued, and so no more packets are received and dropped than sent.
pub proof fn lemma_always_accounted<S: Strategy>(
    server: ServerView<S::State>,
    metrics: MetricsView,
    traffic: Seq<Traffic>,
)
    requires
        server.buffer.len() <= server.buffer_size,
        accounted(metrics, server.buffer.len()),
    ensures
        ({
            let (s, m) = serve::<S>(server, metrics, traffic);
            &&& s.buffer_size == server.buffer_size
            &&& s.buffer.len() <= s.buffer_size
            &&& accounted(m, s.buffer.len())
            &&& m.packets_sent < u64::MAX ==> m.packets_received + m.packets_dropped
                <= m.packets_sent
        }),
    decreases traffic.len(),
{
    if traffic.len() > 0 {
        lemma_always_accounted::<S>(server, metrics, traffic.drop_last());
        let (mid_server, mid_metrics) = serve::<S>(server, metrics, traffic.drop_last());
        match traffic.last() {
            Traffic::Delivery { packet, now, draw } => {
                lemma_delivery_accounted::<S>(mid_server, mid_metrics, 0, packet, now, draw);
                lemma_buffer_stays_bounded::<S>(mid_server, mid_metrics, packet, now, draw);
            },
            Traffic::Failure => {
                lemma_failed_send_accounted(mid_metrics, mid_server.buffer.len());
            },
            Traffic::Tick { now } => {
                lemma_drain_accounted::<S>(mid_server, mid_metrics, 0, now);
            },
        }
    }
}

/// At every moment of a server that is fed in its own process, the loss
/// rate that a snapshot reports is at most one.
pub proof fn lemma_loss_rate_at_most_one<S: Strategy>(
    server: ServerView<S::State>,
    metrics: MetricsView,
    traffic: Seq<Traffic>,
    now: u64,
)
    requires
        server.buffer.len() <= server.buffer_size,
        accounted(metrics, server.buffer.len()),
        serve::<S>(server, metrics, traffic).1.packets_sent < u64::MAX,
    ensures
        snapshot_of(serve::<S>(server, metrics, traffic).1, now).packet_loss_ppm <= PPM,
{
    lemma_always_accounted::<S>(server, metrics, traffic);
    let m = serve::<S>(server, metrics, traffic).1;
    if m.packets_sent > 0 {
        lemma_ratio_at_most_one(m.packets_dropped as int, m.packets_sent as int);
    }
}

/// The connections that an agent keeps open, one slot for each server.
/// A slot is empty until a send to its server went well, and again after
/// one failed.
pub struct ConnectionSlots<C> {
    slots: Vec<Option<C>>,
}

impl<C> View for ConnectionSlots<C> {
    type V = Seq<Option<C>>;

    closed spec fn view(&self) -> Seq<Option<C>> {
        self.slots@
    }
}

impl<C> ConnectionSlots<C> {
    /// Empty slots for `num_servers` servers.
    pub fn new(num_servers: usize) -> (slots: Self)
        ensures
            slots@.len() == num_servers,
            forall|i: int| 0 <= i < num_servers ==> slots@[i] is None,
    {
        let mut slots: Vec<Option<C>> = Vec::new();
        let mut i: usize = 0;
        while i < num_servers
            invariant
                i <= num_servers,
                slots@.len() == i,
                forall|j: int| 0 <= j < i ==> slots@[j] is None,
            decreases num_servers - i,
        {
            slots.push(None);
            i = i + 1;
        }
        ConnectionSlots { slots }
    }

    /// Number of slots.
    pub fn len(&self) -> (n: usize)
        ensures
            n == self@.len(),
    {
        self.slots.len()
    }

    /// Takes the connection to a server out of its slot, for a send: the
    /// slot is empty until the connection is put back.
    pub fn take(&mut self, server_idx: usize) -> (connection: Option<C>)
        requires
            server_idx < old(self)@.len(),
        ensures
            connection == old(self)@[server_idx as int],
            final(self)@ == old(self)@.update(server_idx as int, None),
    {
        let mut connection: Option<C> = None;
        std::mem::swap(&mut self.slots[server_idx], &mut connection);
        connection
    }

    /// Puts the connection to a server back after a send that went well.
    pub fn keep(&mut self, server_idx: usize, connection: C)
        requires
            server_idx < old(self)@.len(),
        ensures
            final(self)@ == old(self)@.update(server_idx as int, Some(connection)),
    {
        self.slots[server_idx] = Some(connection);
    }

    /// Empties the slot of a server after a send that failed.
    pub fn invalidate(&mut self, server_idx: usize)
        requires
            server_idx < old(self)@.len(),
        ensures
            final(self)@ == old(self)@.update(server_idx as int, None),
    {
        self.slots[server_idx] = None;
    }
}

/// A traffic generator.
#[derive(Debug)]
pub struct Agent {
    id: u32,
    server_addrs: Vec<String>,
    packet_counter: u64,
    traffic_pattern: TrafficPattern,
}

impl View for Agent {
    type V = AgentView;

    closed spec fn view(&self) -> AgentView {
        AgentView {
            id: self.id,
            server_addrs: Seq::new(self.server_addrs@.len(), |i: int| self.server_addrs@[i]@),
            packet_counter: self.packet_counter,
            traffic_pattern: self.traffic_pattern,
        }
    }
}

impl Agent {
    /// An agent that has made no packet yet.
    pub fn new(id: u32, server_addrs: Vec<String>, traffic_pattern: TrafficPattern) -> (agent:
        Self)
        ensures
            agent@ == (AgentView {
                id,
                server_addrs: Seq::new(server_addrs@.len(), |i: int| server_addrs@[i]@),
                packet_counter: 0,
                traffic_pattern,
            }),
    {
        Agent { id, server_addrs, packet_counter: 0, traffic_pattern }
    }

    pub fn id(&self) -> (id: u32)
        ensures
            id == self@.id,
    {
        self.id
    }

    /// The pattern that the agent follows.
    pub fn traffic_pattern(&self) -> (pattern: TrafficPattern)
        ensures
            pattern == self@.traffic_pattern,
    {
        self.traffic_pattern
    }

    /// Number of servers that the agent sends to.
    pub fn num_servers(&self) -> (n: usize)
        ensures
            n == self@.server_addrs.len(),
    {
        self.server_addrs.len()
    }

    /// The endpoint of the server at an index.
    pub fn server_addr(&self, server_idx: usize) -> (addr: &String)
        requires
            server_idx < self@.server_addrs.len(),
        ensures
            addr@ == self@.server_addrs[server_idx as int],
    {
        &self.server_addrs[server_idx]
    }

    /// What the agent does once `elapsed_us` microseconds of its run have
    /// passed.
    pub fn pacing(&self, elapsed_us: u64) -> (pacing: Pacing)
        ensures
            pacing == pacing_of(self@.traffic_pattern, elapsed_us),
    {
        self.traffic_pattern.pacing(elapsed_us)
    }

    /// Makes the next packet, for the server at `server_idx`, stamped with
    /// the time. The clock is read here.
    pub fn make_packet(&mut self, server_idx: usize) -> (packet: Packet)
        ensures
            exists|now: u128| packet@ == #[trigger] packet_made(old(self)@, server_idx, now),
            final(self)@ == (AgentView {
                packet_counter: next_counter(old(self)@.packet_counter),
                ..old(self)@
            }),
    {
        self.make_packet_at(server_idx, now_micros() as u128)
    }

    /// Makes the next packet, for the server at `server_idx`, stamped with
    /// `now_micros` (microseconds since the epoch).
    pub fn make_packet_at(&mut self, server_idx: usize, now_micros: u128) -> (packet: Packet)
        ensures
            packet@ == packet_made(old(self)@, server_idx, now_micros),
            final(self)@ == (AgentView {
                packet_counter: next_counter(old(self)@.packet_counter),
                ..old(self)@
            }),
    {
        let id = PacketId::new(self.packet_counter);
        self.packet_counter = if self.packet_counter == u64::MAX {
            0
        } else {
            self.packet_counter + 1
        };
        let label: u32 = ((server_idx as u64) % 0x1_0000_0000) as u32;
        Packet::new_at(id, self.id, label, PACKET_SIZE_BYTES, Priority::Normal, now_micros)
    }

    /// Picks one of the agent's servers at random.
    pub fn choose_server(&self) -> (server_idx: usize)
        requires
            self@.server_addrs.len() > 0,
        ensures
            server_idx < self@.server_addrs.len(),
    {
        random_below(self.server_addrs.len() as u64) as usize
    }

    /// Counts the outcome of handing a packet to the transport: as sent
    /// where that went well, as sent and as dropped where it failed, so
    /// that no more packets are ever counted as dropped than as sent.
    pub fn note_delivery(metrics: &mut MetricsCollector, delivered: bool)
        requires
            old(metrics).inv(),
        ensures
            final(metrics).inv(),
            final(metrics)@ == after_delivery(old(metrics)@, delivered),
    {
        metrics.packet_sent();
        if !delivered {
            metrics.packet_dropped();
        }
    }

    /// Settles a send to the server at `server_idx`: `connection` is the
    /// connection that the packet went over where the send went well, and
    /// nothing where it failed. The outcome is counted, and the slot of the
    /// server keeps the connection that worked or is left empty.
    pub fn settle_send<C>(
        metrics: &mut MetricsCollector,
        connections: &mut ConnectionSlots<C>,
        server_idx: usize,
        connection: Option<C>,
    )
        requires
            old(metrics).inv(),
            server_idx < old(connections)@.len(),
        ensures
            final(metrics).inv(),
            final(metrics)@ == after_delivery(old(metrics)@, connection is Some),
            final(connections)@ == old(connections)@.update(server_idx as int, connection),
    {
        match connection {
            Some(kept) => {
                Agent::note_delivery(metrics, true);
                connections.keep(server_idx, kept);
            },
            None => {
                Agent::note_delivery(metrics, false);
                connections.invalidate(server_idx);
            },
        }
    }

    /// Makes the next packet at `now` (microseconds since the epoch) and
    /// delivers it to the server at `server_idx` of the same process, with
    /// `draw` as the policy's random draw.
    pub fn send_packet_at<S: Strategy>(
        &mut self,
        servers: &mut Vec<Server<S>>,
        server_idx: usize,
        metrics: &mut MetricsCollector,
        now: u64,
        draw: u32,
    ) -> (action: Action)
        requires
            server_idx < old(servers)@.len(),
            forall|i: int| 0 <= i < old(servers)@.len() ==> (#[trigger] old(servers)@[i]).inv(),
            old(metrics).inv(),
        ensures
            final(metrics).inv(),
            final(servers)@.len() == old(servers)@.len(),
            forall|i: int| 0 <= i < final(servers)@.len() ==> (#[trigger] final(servers)@[i]).inv(),
            forall|i: int|
                0 <= i < final(servers)@.len() && i != server_idx ==> final(servers)@[i] == old(
                    servers,
                )@[i],
            (final(servers)@[server_idx as int]@, final(metrics)@, action) == agent_delivery::<S>(
                old(servers)@[server_idx as int]@,
                old(metrics)@,
                old(self)@,
                server_idx,
                now,
                draw,
            ),
            final(self)@ == (AgentView {
                packet_counter: next_counter(old(self)@.packet_counter),
                ..old(self)@
            }),
    {
        let packet = self.make_packet_at(server_idx, now as u128);
        metrics.packet_sent();
        servers[server_idx].enqueue_packet_at(packet, metrics, now, draw)
    }

    /// Makes the next packet and delivers it to a server of the same
    /// process that is picked at random. Returns the server's index and
    /// the packet's fate. The collector's clock is read and the random
    /// draws are made here.
    pub fn send_packet<S: Strategy>(
        &mut self,
        servers: &mut Vec<Server<S>>,
        metrics: &mut MetricsCollector,
    ) -> (sent: (usize, Action))
        requires
            old(servers)@.len() > 0,
            forall|i: int| 0 <= i < old(servers)@.len() ==> (#[trigger] old(servers)@[i]).inv(),
            old(metrics).inv(),
        ensures
            final(metrics).inv(),
            final(servers)@.len() == old(servers)@.len(),
            sent.0 < old(servers)@.len(),
            forall|i: int| 0 <= i < final(servers)@.len() ==> (#[trigger] final(servers)@[i]).inv(),
            forall|i: int|
                0 <= i < final(servers)@.len() && i != sent.0 ==> final(servers)@[i] == old(
                    servers,
                )@[i],
            exists|now: u64, draw: u32|
                draw < PROB_SCALE && (final(servers)@[sent.0 as int]@, final(metrics)@, sent.1)
                    == #[trigger] agent_delivery::<S>(
                    old(servers)@[sent.0 as int]@,
                    old(metrics)@,
                    old(self)@,
                    sent.0,
                    now,
                    draw,
                ),
            final(self)@ == (AgentView {
                packet_counter: next_counter(old(self)@.packet_counter),
                ..old(self)@
            }),
    {
        let now = metrics.now();
        let server_idx = random_below(servers.len() as u64) as usize;
        let draw = random_draw();
        let action = self.send_packet_at(servers, server_idx, metrics, now, draw);
        let sent = (server_idx, action);
        proof {
            assert((servers@[sent.0 as int]@, metrics@, sent.1) == agent_delivery::<S>(
                old(servers)@[sent.0 as int]@,
                old(metrics)@,
                old(self)@,
                sent.0,
                now,
                draw,
            ));
        }
        sent
    }
}

} // verus!
