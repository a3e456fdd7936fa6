//! Counters of a run and the per-second snapshots taken of them.

pub mod analyzer;

use crate::clock::Clock;
use crate::network::PACKET_BITS;
use vstd::prelude::*;

verus! {

/// Latency samples above this many microseconds (30 s) are discarded.
pub const MAX_LATENCY_SAMPLE_US: u64 = 30_000_000;

/// A mean latency above this many microseconds (10 s) is reported as zero.
pub const MAX_MEAN_LATENCY_US: u128 = 10_000_000;

/// Microseconds in a second.
pub const MICROS_PER_SECOND: u128 = 1_000_000;

/// Parts per million of a whole.
pub const PPM: u128 = 1_000_000;

/// The counters at one instant.
#[derive(Debug, Clone, Copy, PartialEq, Eq, Structural)]
pub struct MetricsSnapshot {
    /// Microseconds since the collector was started.
    pub timestamp_us: u64,
    pub packets_sent: u64,
    pub packets_received: u64,
    pub packets_dropped: u64,
    /// Received bits per second since the start.
    pub throughput_bps: u128,
    /// Mean of the latency samples, in microseconds.
    pub avg_latency_us: u64,
    /// The queue length recorded last.
    pub queue_length: usize,
    /// Dropped packets per million sent.
    pub packet_loss_ppm: u128,
}

/// What a collector holds, as plain values.
pub struct MetricsView {
    pub start_time: u64,
    pub packets_sent: u64,
    pub packets_received: u64,
    pub packets_dropped: u64,
    /// Sum of the latency samples that were kept, in microseconds.
    pub total_latency_us: u128,
    /// Number of latency samples that were kept.
    pub latency_samples: u64,
    /// Every queue length recorded, oldest first.
    pub queue_lengths: Seq<usize>,
    /// Every snapshot saved, oldest first.
    pub snapshots: Seq<MetricsSnapshot>,
}

/// A counter after one more event: it stops at the largest value.
pub open spec fn bumped(counter: u64) -> u64 {
    if counter == u64::MAX {
        u64::MAX
    } else {
        (counter + 1) as u64
    }
}

/// A collector started at `start_time` that has seen nothing yet.
pub open spec fn metrics_initial(start_time: u64) -> MetricsView {
    MetricsView {
        start_time,
        packets_sent: 0,
        packets_received: 0,
        packets_dropped: 0,
        total_latency_us: 0,
        latency_samples: 0,
        queue_lengths: Seq::empty(),
        snapshots: Seq::empty(),
    }
}

/// The collector after a packet was received with the given latency: the
/// sample is kept unless it is above 30 s.
pub open spec fn after_received(pre: MetricsView, latency_us: u64) -> MetricsView {
    if latency_us > MAX_LATENCY_SAMPLE_US || pre.latency_samples == u64::MAX {
        MetricsView { packets_received: bumped(pre.packets_received), ..pre }
    } else {
        MetricsView {
            packets_received: bumped(pre.packets_received),
            total_latency_us: (pre.total_latency_us + latency_us) as u128,
            latency_samples: (pre.latency_samples + 1) as u64,
            ..pre
        }
    }
}

/// Received bits per second over `elapsed_us` microseconds; zero when no
/// time has passed.
pub open spec fn throughput_bps(received: u64, elapsed_us: u64) -> u128 {
    if elapsed_us > 0 {
        (received * PACKET_BITS * MICROS_PER_SECOND / (elapsed_us as int)) as u128
    } else {
        0
    }
}

/// Mean latency in microseconds; zero without samples, and zero when the
/// mean is above 10 s.
pub open spec fn mean_latency_us(total_latency_us: u128, samples: u64) -> u64 {
    if samples > 0 {
        let mean = total_latency_us / (samples as u128);
        if mean > MAX_MEAN_LATENCY_US {
            0
        } else {
            mean as u64
        }
    } else {
        0
    }
}

/// Dropped packets per million sent; zero when none was sent.
pub open spec fn loss_ppm(dropped: u64, sent: u64) -> u128 {
    if sent > 0 {
        (dropped * PPM / (sent as int)) as u128
    } else {
        0
    }
}

/// `now - start`, or zero where `start` is the later instant.
pub open spec fn elapsed_us(start: u64, now: u64) -> u64 {
    if now >= start {
        (now - start) as u64
    } else {
        0
    }
}

/// The snapshot of a collector at `now`.
pub open spec fn snapshot_of(m: MetricsView, now: u64) -> MetricsSnapshot {
    MetricsSnapshot {
        timestamp_us: elapsed_us(m.start_time, now),
        packets_sent: m.packets_sent,
        packets_received: m.packets_received,
        packets_dropped: m.packets_dropped,
        throughput_bps: throughput_bps(m.packets_received, elapsed_us(m.start_time, now)),
        avg_latency_us: mean_latency_us(m.total_latency_us, m.latency_samples),
        queue_length: if m.queue_lengths.len() > 0 {
            m.queue_lengths.last()
        } else {
            0
        },
        packet_loss_ppm: loss_ppm(m.packets_dropped, m.packets_sent),
    }
}

/// Each snapshot was taken later than the one before it.
pub open spec fn timestamps_increasing(snapshots: Seq<MetricsSnapshot>) -> bool {
    forall|i: int, j: int|
        0 <= i < j < snapshots.len() ==> snapshots[i].timestamp_us < snapshots[j].timestamp_us
}

/// The series of a collector after snapshots were saved at the instants
/// `times`, one after the other.
pub open spec fn saved_at(m: MetricsView, times: Seq<u64>) -> Seq<MetricsSnapshot>
    decreases times.len(),
{
    if times.len() == 0 {
        m.snapshots
    } else {
        saved_at(m, times.drop_last()).push(
            snapshot_of(
                MetricsView { snapshots: saved_at(m, times.drop_last()), ..m },
                times.last(),
            ),
        )
    }
}

/// Snapshots saved at instants that increase, none before the start of
/// the collector, are in strictly increasing order of time.
pub proof fn lemma_timestamps_increase(m: MetricsView, times: Seq<u64>)
    requires
        m.snapshots.len() == 0,
        forall|i: int, j: int| 0 <= i < j < times.len() ==> times[i] < times[j],
        forall|i: int| 0 <= i < times.len() ==> m.start_time <= times[i],
    ensures
        saved_at(m, times).len() == times.len(),
        forall|i: int|
            0 <= i < times.len() ==> (#[trigger] saved_at(m, times)[i]).timestamp_us == times[i]
                - m.start_time,
        timestamps_increasing(saved_at(m, times)),
    decreases times.len(),
{
    if times.len() > 0 {
        let earlier = times.drop_last();
        lemma_timestamps_increase(m, earlier);
        let series = saved_at(m, times);
        assert forall|i: int| 0 <= i < times.len() implies (#[trigger] series[i]).timestamp_us
            == times[i] - m.start_time by {
            if i < earlier.len() {
                assert(series[i] == saved_at(m, earlier)[i]);
                assert(earlier[i] == times[i]);
            }
        }
    }
}

/// Aggregator of the counters of one run.
#[derive(Debug)]
pub struct MetricsCollector {
    clock: Clock,
    start_time: u64,
    packets_sent: u64,
    packets_received: u64,
    packets_dropped: u64,
    total_latency_us: u128,
    latency_samples: u64,
    queue_lengths: Vec<usize>,
    snapshots: Vec<MetricsSnapshot>,
}

impl View for MetricsCollector {
    type V = MetricsView;

    closed spec fn view(&self) -> MetricsView {
        MetricsView {
            start_time: self.start_time,
            packets_sent: self.packets_sent,
            packets_received: self.packets_received,
            packets_dropped: self.packets_dropped,
            total_latency_us: self.total_latency_us,
            latency_samples: self.latency_samples,
            queue_lengths: self.queue_lengths@,
            snapshots: self.snapshots@,
        }
    }
}

/// What holds of every reachable collector: no kept sample is above 30 s.
pub open spec fn metrics_valid(m: MetricsView) -> bool {
    m.total_latency_us <= m.latency_samples * MAX_LATENCY_SAMPLE_US
}

impl MetricsCollector {
    /// What holds of every collector between calls: no kept sample is
    /// above 30 s, and the collector's clock counts on from its start.
    pub closed spec fn inv(&self) -> bool {
        metrics_valid(self@) && self.clock.anchor() == self.start_time
    }

    /// In a sound collector no kept sample is above 30 s.
    pub proof fn lemma_inv(&self)
        requires
            self.inv(),
        ensures
            metrics_valid(self@),
    {
    }

    /// The reading of the collector's clock: never before its start.
    pub fn now(&self) -> (now: u64)
        ensures
            self.inv() ==> now >= self@.start_time,
    {
        self.clock.now()
    }

    /// A collector whose clock starts now. The clock is read here.
    pub fn new() -> (collector: Self)
        ensures
            collector.inv(),
            exists|now: u64| collector@ == #[trigger] metrics_initial(now),
    {
        let clock = Clock::start();
        let start_time = clock.anchored();
        let collector = MetricsCollector {
            clock,
            start_time,
            packets_sent: 0,
            packets_received: 0,
            packets_dropped: 0,
            total_latency_us: 0,
            latency_samples: 0,
            queue_lengths: Vec::new(),
            snapshots: Vec::new(),
        };
        assert(collector@ == metrics_initial(start_time));
        collector
    }

    /// A collector whose clock starts at `now` (microseconds).
    pub fn started_at(now: u64) -> (collector: Self)
        ensures
            collector.inv(),
            collector@ == metrics_initial(now),
    {
        MetricsCollector {
            clock: Clock::anchored_at(now),
            start_time: now,
            packets_sent: 0,
            packets_received: 0,
            packets_dropped: 0,
            total_latency_us: 0,
            latency_samples: 0,
            queue_lengths: Vec::new(),
            snapshots: Vec::new(),
        }
    }

    /// Counts one packet sent.
    pub fn packet_sent(&mut self)
        requires
            old(self).inv(),
        ensures
            final(self).inv(),
            final(self)@ == (MetricsView {
                packets_sent: bumped(old(self)@.packets_sent),
                ..old(self)@
            }),
    {
        if self.packets_sent < u64::MAX {
            self.packets_sent = self.packets_sent + 1;
        }
    }

    /// Counts one packet received after `latency_us` microseconds in the
    /// system.
    pub fn packet_received(&mut self, latency_us: u64)
        requires
            old(self).inv(),
        ensures
            final(self).inv(),
            final(self)@ == after_received(old(self)@, latency_us),
    {
        if self.packets_received < u64::MAX {
            self.packets_received = self.packets_received + 1;
        }
        if latency_us > MAX_LATENCY_SAMPLE_US || self.latency_samples == u64::MAX {
            return ;
        }
        assert((self.latency_samples + 1) * MAX_LATENCY_SAMPLE_US == self.latency_samples
            * MAX_LATENCY_SAMPLE_US + MAX_LATENCY_SAMPLE_US) by (nonlinear_arith);
        assert(self.latency_samples * MAX_LATENCY_SAMPLE_US <= u64::MAX * MAX_LATENCY_SAMPLE_US)
            by (nonlinear_arith)
            requires
                self.latency_samples <= u64::MAX,
        ;
        self.total_latency_us = self.total_latency_us + latency_us as u128;
        self.latency_samples = self.latency_samples + 1;
    }

    /// Counts one packet dropped.
    pub fn packet_dropped(&mut self)
        requires
            old(self).inv(),
        ensures
            final(self).inv(),
            final(self)@ == (MetricsView {
                packets_dropped: bumped(old(self)@.packets_dropped),
                ..old(self)@
            }),
    {
        if self.packets_dropped < u64::MAX {
            self.packets_dropped = self.packets_dropped + 1;
        }
    }

    /// Records the length of a queue after an arrival was decided.
    pub fn record_queue_length(&mut self, len: usize)
        requires
            old(self).inv(),
        ensures
            final(self).inv(),
            final(self)@ == (MetricsView {
                queue_lengths: old(self)@.queue_lengths.push(len),
                ..old(self)@
            }),
    {
        self.queue_lengths.push(len);
    }

    /// The counters now. The clock is read here.
    pub fn snapshot(&self) -> (snapshot: MetricsSnapshot)
        requires
            self.inv(),
        ensures
            exists|now: u64|
                now >= self@.start_time && snapshot == #[trigger] snapshot_of(self@, now),
            self@.packets_dropped <= self@.packets_sent ==> snapshot.packet_loss_ppm <= PPM,
            snapshot.avg_latency_us <= MAX_MEAN_LATENCY_US,
    {
        self.snapshot_at(self.now())
    }

    /// The counters at `now` (microseconds). The loss rate is at most one
    /// where no more packets were dropped than sent; the mean latency is
    /// never above 10 s.
    pub fn snapshot_at(&self, now: u64) -> (snapshot: MetricsSnapshot)
        requires
            self.inv(),
        ensures
            snapshot == snapshot_of(self@, now),
            self@.packets_dropped <= self@.packets_sent ==> snapshot.packet_loss_ppm <= PPM,
            snapshot.avg_latency_us <= MAX_MEAN_LATENCY_US,
    {
        let elapsed: u64 = if now >= self.start_time { now - self.start_time } else { 0 };
        let throughput_bps: u128 = if elapsed > 0 {
            assert(self.packets_received * PACKET_BITS * MICROS_PER_SECOND <= u64::MAX
                * PACKET_BITS * MICROS_PER_SECOND) by (nonlinear_arith)
                requires
                    self.packets_received <= u64::MAX,
            ;
            (self.packets_received as u128) * (PACKET_BITS as u128) * MICROS_PER_SECOND / (
            elapsed as u128)
        } else {
            0
        };
        let avg_latency_us: u64 = if self.latency_samples > 0 {
            let mean: u128 = self.total_latency_us / (self.latency_samples as u128);
            if mean > MAX_MEAN_LATENCY_US {
                0
            } else {
                mean as u64
            }
        } else {
            0
        };
        let packet_loss_ppm: u128 = if self.packets_sent > 0 {
            assert(self.packets_dropped * PPM <= u64::MAX * PPM) by (nonlinear_arith)
                requires
                    self.packets_dropped <= u64::MAX,
            ;
            let rate = (self.packets_dropped as u128) * PPM / (self.packets_sent as u128);
            proof {
                if self.packets_dropped <= self.packets_sent {
                    lemma_ratio_at_most_one(
                        self.packets_dropped as int,
                        self.packets_sent as int,
                    );
                }
            }
            rate
        } else {
            0
        };
        let queue_length: usize = if self.queue_lengths.len() > 0 {
            self.queue_lengths[self.queue_lengths.len() - 1]
        } else {
            0
        };
        MetricsSnapshot {
            timestamp_us: elapsed,
            packets_sent: self.packets_sent,
            packets_received: self.packets_received,
            packets_dropped: self.packets_dropped,
            throughput_bps,
            avg_latency_us,
            queue_length,
            packet_loss_ppm,
        }
    }

    /// Appends the snapshot of now to the series. The clock is read here.
    pub fn save_snapshot(&mut self)
        requires
            old(self).inv(),
        ensures
            final(self).inv(),
            exists|now: u64|
                now >= old(self)@.start_time && final(self)@ == (MetricsView {
                    snapshots: old(self)@.snapshots.push(#[trigger] snapshot_of(old(self)@, now)),
                    ..old(self)@
                }),
    {
        let now = self.now();
        self.save_snapshot_at(now)
    }

    /// Appends the snapshot at `now` to the series. The series stays in
    /// strictly increasing order of time when `now` is later than the
    /// instant of the snapshot saved last.
    pub fn save_snapshot_at(&mut self, now: u64)
        requires
            old(self).inv(),
        ensures
            final(self).inv(),
            final(self)@ == (MetricsView {
                snapshots: old(self)@.snapshots.push(snapshot_of(old(self)@, now)),
                ..old(self)@
            }),
            timestamps_increasing(old(self)@.snapshots) && (old(self)@.snapshots.len() > 0
                ==> old(self)@.snapshots.last().timestamp_us < elapsed_us(
                old(self)@.start_time,
                now,
            )) ==> timestamps_increasing(final(self)@.snapshots),
    {
        let snapshot = self.snapshot_at(now);
        self.snapshots.push(snapshot);
    }

    /// The snapshots saved so far, oldest first.
    pub fn get_snapshots(&self) -> (snapshots: Vec<MetricsSnapshot>)
        ensures
            snapshots@ == self@.snapshots,
    {
        let mut copy: Vec<MetricsSnapshot> = Vec::new();
        let mut i: usize = 0;
        while i < self.snapshots.len()
            invariant
                i <= self.snapshots@.len(),
                copy@ =~= self.snapshots@.take(i as int),
            decreases self.snapshots@.len() - i,
        {
            copy.push(self.snapshots[i]);
            i = i + 1;
        }
        assert(self.snapshots@.take(i as int) =~= self.snapshots@);
        copy
    }

    /// Packets counted as sent.
    pub fn packets_sent(&self) -> (n: u64)
        ensures
            n == self@.packets_sent,
    {
        self.packets_sent
    }

    /// Packets counted as received.
    pub fn packets_received(&self) -> (n: u64)
        ensures
            n == self@.packets_received,
    {
        self.packets_received
    }

    /// Packets counted as dropped.
    pub fn packets_dropped(&self) -> (n: u64)
        ensures
            n == self@.packets_dropped,
    {
        self.packets_dropped
    }
}

impl Default for MetricsCollector {
    /// A collector whose clock starts now.
    fn default() -> (collector: Self)
        ensures
            collector.inv(),
            exists|now: u64| collector@ == #[trigger] metrics_initial(now),
    {
        MetricsCollector::new()
    }
}

/// A part is at most a million parts per million of the whole.
pub proof fn lemma_ratio_at_most_one(part: int, whole: int)
    requires
        0 <= part <= whole,
        whole > 0,
    ensures
        part * PPM / whole <= PPM,
{
    assert(part * PPM <= whole * PPM) by (nonlinear_arith)
        requires
            0 <= part <= whole,
    ;
    assert(part * PPM / whole <= PPM) by (nonlinear_arith)
        requires
            part * PPM <= whole * PPM,
            whole > 0,
    ;
}

} // verus!
