//! PIE: a proportional-integral controller on the queueing delay.

use crate::clock::now_micros;
use crate::network::packet::{Packet, PacketView};
use crate::network::PACKET_BITS;
use crate::strategies::blue::{drawn, elapsed};
use crate::strategies::codel::elapsed_since;
use crate::strategies::{Action, Strategy, PROB_SCALE};
use vstd::prelude::*;

verus! {

/// Queueing delay that the controller steers to, in microseconds (15 ms).
pub const TARGET_DELAY_US: u64 = 15_000;

/// Proportional gain: parts per million of probability for each
/// microsecond of delay above the target (0.125 per millisecond).
pub const ALPHA_PPM_PER_US: u64 = 125;

/// Integral gain: parts per million of probability for each microsecond
/// by which the delay grew since the last update (1.25 per millisecond).
pub const BETA_PPM_PER_US: u64 = 1250;

/// Least time between two updates, in microseconds (30 ms).
pub const UPDATE_INTERVAL_US: u64 = 30_000;

/// Time after the queue was short during which nothing is dropped, in
/// microseconds (150 ms).
pub const BURST_ALLOWANCE_US: u64 = 150_000;

/// A queue under this length opens the burst allowance.
pub const SHORT_QUEUE: usize = 10;

/// Bits per second in a megabit per second.
pub const BPS_PER_MBPS: u64 = 1_000_000;

/// PIE. The fields are its whole state; instants are microseconds.
#[derive(Debug, Clone, Copy, PartialEq, Eq)]
pub struct Pie {
    /// Probability that an arrival is dropped, in parts per million.
    pub drop_prob: u32,
    pub last_update: u64,
    /// Queueing delay at the last update, in microseconds.
    pub qdelay_old: u64,
    /// When the burst allowance was opened last.
    pub burst_start: Option<u64>,
    pub bandwidth_bps: u64,
}

/// Bits per second of a link of `bandwidth_mbps`, capped at the largest
/// number.
pub open spec fn mbps_to_bps(bandwidth_mbps: u64) -> u64 {
    if bandwidth_mbps * BPS_PER_MBPS > u64::MAX {
        u64::MAX
    } else {
        (bandwidth_mbps * BPS_PER_MBPS) as u64
    }
}

/// The state a constructor gives at `now`.
pub open spec fn pie_initial(bandwidth_bps: u64, now: u64) -> Pie {
    Pie { drop_prob: 0, last_update: now, qdelay_old: 0, burst_start: None, bandwidth_bps }
}

/// Delay of a queue of `queue_len` nominal packets at `bandwidth_bps`, in
/// microseconds, rounded down; the largest number for a link without
/// bandwidth and where the delay exceeds it.
pub open spec fn estimated_delay_us(queue_len: usize, bandwidth_bps: u64) -> u64 {
    if bandwidth_bps == 0 {
        u64::MAX
    } else {
        let micros = queue_len * PACKET_BITS * 1_000_000 / (bandwidth_bps as int);
        if micros > u64::MAX {
            u64::MAX
        } else {
            micros as u64
        }
    }
}

/// Whether the burst allowance is open at `now`.
pub open spec fn in_burst(s: Pie, now: u64) -> bool {
    match s.burst_start {
        Some(t) => elapsed_since(now, t) < BURST_ALLOWANCE_US,
        None => false,
    }
}

/// An arrival at `now`: accepted while the burst allowance is open; a
/// short queue opens it and the packet is accepted; else the packet is
/// dropped with the drop probability.
pub open spec fn pie_enqueue(s: Pie, queue_len: usize, now: u64, draw: u32) -> (Pie, Action) {
    if in_burst(s, now) {
        (s, Action::Accept)
    } else if queue_len < SHORT_QUEUE {
        (Pie { burst_start: Some(now), ..s }, Action::Accept)
    } else if drawn(s.drop_prob, draw) {
        (s, Action::Drop)
    } else {
        (s, Action::Accept)
    }
}

/// The queueing delay that an update works with: the measured sojourn
/// time where there is one, else the estimate from the queue length.
pub open spec fn pie_delay(s: Pie, queue_len: usize, avg_sojourn_us: u64) -> u64 {
    if avg_sojourn_us > 0 {
        avg_sojourn_us
    } else {
        estimated_delay_us(queue_len, s.bandwidth_bps)
    }
}

/// Change of the drop probability for a delay of `qdelay` after one of
/// `qdelay_old`, in parts per million.
pub open spec fn pie_delta(qdelay: u64, qdelay_old: u64) -> int {
    ALPHA_PPM_PER_US * (qdelay - TARGET_DELAY_US) + BETA_PPM_PER_US * (qdelay - qdelay_old)
}

/// A probability plus a change, kept between zero and certainty.
pub open spec fn clamped(p: int) -> u32 {
    if p < 0 {
        0
    } else if p > PROB_SCALE {
        PROB_SCALE
    } else {
        p as u32
    }
}

/// The periodic tick at `now`: nothing within the update interval; else
/// the controller moves the drop probability and remembers the delay.
pub open spec fn pie_update(s: Pie, queue_len: usize, avg_sojourn_us: u64, now: u64) -> Pie {
    if elapsed_since(now, s.last_update) < UPDATE_INTERVAL_US {
        s
    } else {
        let qdelay = pie_delay(s, queue_len, avg_sojourn_us);
        Pie {
            drop_prob: clamped(s.drop_prob + pie_delta(qdelay, s.qdelay_old)),
            qdelay_old: qdelay,
            last_update: now,
            ..s
        }
    }
}

/// Between consecutive updates the drop probability does not fall while
/// the controller's change is not negative, and does not rise while it is
/// not positive. With the delay above the target that is the case whenever
/// the delay did not shrink; below the target, whenever it did not grow.
pub proof fn lemma_pie_monotone(s: Pie, queue_len: usize, avg_sojourn_us: u64, now: u64)
    requires
        s.drop_prob <= PROB_SCALE,
        elapsed_since(now, s.last_update) >= UPDATE_INTERVAL_US,
    ensures
        ({
            let qdelay = pie_delay(s, queue_len, avg_sojourn_us);
            let after = pie_update(s, queue_len, avg_sojourn_us, now);
            &&& pie_delta(qdelay, s.qdelay_old) >= 0 ==> after.drop_prob >= s.drop_prob
            &&& pie_delta(qdelay, s.qdelay_old) <= 0 ==> after.drop_prob <= s.drop_prob
            &&& qdelay > TARGET_DELAY_US && qdelay >= s.qdelay_old ==> after.drop_prob
                >= s.drop_prob
            &&& qdelay < TARGET_DELAY_US && qdelay <= s.qdelay_old ==> after.drop_prob
                <= s.drop_prob
            &&& qdelay > TARGET_DELAY_US && s.drop_prob == 0 ==> after.drop_prob >= s.drop_prob
            &&& qdelay < TARGET_DELAY_US && s.drop_prob == PROB_SCALE ==> after.drop_prob
                <= s.drop_prob
        }),
{
}

impl Pie {
    /// PIE for a link of `bandwidth_mbps`, made now. The clock is read
    /// here.
    pub fn new_with_bandwidth(bandwidth_mbps: u64) -> (strategy: Self)
        ensures
            strategy.inv(),
            exists|now: u64| strategy == #[trigger] pie_initial(mbps_to_bps(bandwidth_mbps), now),
    {
        Pie::new_with_bandwidth_at(bandwidth_mbps, now_micros())
    }

    /// PIE for a link of 100 Mbps, made now. The clock is read here.
    pub fn new() -> (strategy: Self)
        ensures
            strategy.inv(),
            exists|now: u64| strategy == #[trigger] pie_initial(100_000_000, now),
    {
        Pie::new_at(now_micros())
    }

    /// PIE for a link of `bandwidth_mbps`, made at `now` (microseconds).
    pub fn new_with_bandwidth_at(bandwidth_mbps: u64, now: u64) -> (strategy: Self)
        ensures
            strategy == pie_initial(mbps_to_bps(bandwidth_mbps), now),
            strategy.inv(),
    {
        let bandwidth_bps: u64 = if bandwidth_mbps > u64::MAX / BPS_PER_MBPS {
            u64::MAX
        } else {
            bandwidth_mbps * BPS_PER_MBPS
        };
        Pie { drop_prob: 0, last_update: now, qdelay_old: 0, burst_start: None, bandwidth_bps }
    }

    /// PIE for a link of 100 Mbps, made at `now` (microseconds).
    pub fn new_at(now: u64) -> (strategy: Self)
        ensures
            strategy == pie_initial(100_000_000, now),
            strategy.inv(),
    {
        Pie::new_with_bandwidth_at(100, now)
    }

    /// Delay of a queue of `queue_len` nominal packets on this link, in
    /// microseconds.
    pub fn estimate_queue_delay(&self, queue_len: usize) -> (micros: u64)
        ensures
            micros == estimated_delay_us(queue_len, self.bandwidth_bps),
    {
        if self.bandwidth_bps == 0 {
            return u64::MAX;
        }
        assert(queue_len * PACKET_BITS * 1_000_000 <= usize::MAX * PACKET_BITS * 1_000_000)
            by (nonlinear_arith)
            requires
                queue_len <= usize::MAX,
        ;
        let micros: u128 = (queue_len as u128) * (PACKET_BITS as u128) * 1_000_000 / (
        self.bandwidth_bps as u128);
        if micros > u64::MAX as u128 {
            u64::MAX
        } else {
            micros as u64
        }
    }
}

impl Strategy for Pie {
    type State = Pie;

    open spec fn state(&self) -> Pie {
        *self
    }

    open spec fn inv(&self) -> bool {
        self.drop_prob <= PROB_SCALE
    }

    open spec fn enqueue_spec(
        pre: Pie,
        packet: PacketView,
        queue_len: usize,
        now: u64,
        draw: u32,
    ) -> (Pie, Action) {
        pie_enqueue(pre, queue_len, now, draw)
    }

    open spec fn dequeue_spec(pre: Pie, queue_len: usize, now: u64) -> Pie {
        pre
    }

    open spec fn update_spec(pre: Pie, queue_len: usize, avg_sojourn_us: u64, now: u64) -> Pie {
        pie_update(pre, queue_len, avg_sojourn_us, now)
    }

    open spec fn reset_spec(pre: Pie, now: u64) -> Pie {
        pie_initial(pre.bandwidth_bps, now)
    }

    open spec fn clone_spec(pre: Pie, now: u64) -> Pie {
        pre
    }

    open spec fn name_spec(pre: Pie) -> Seq<char> {
        "PIE"@
    }

    proof fn lemma_reset_forgets_arrival(
        pre: Self::State,
        packet: PacketView,
        queue_len: usize,
        now: u64,
        draw: u32,
        at: u64,
    ) {
    }

    proof fn lemma_reset_forgets_departure(pre: Self::State, queue_len: usize, now: u64, at: u64) {
    }

    proof fn lemma_reset_forgets_tick(
        pre: Self::State,
        queue_len: usize,
        avg_sojourn_us: u64,
        now: u64,
        at: u64,
    ) {
    }

    fn enqueue_at(&mut self, packet: &Packet, queue_len: usize, now: u64, draw: u32) -> (action:
        Action) {
        match self.burst_start {
            Some(t) => {
                if elapsed(now, t) < BURST_ALLOWANCE_US {
                    return Action::Accept;
                }
            },
            None => {},
        }
        if queue_len < SHORT_QUEUE {
            self.burst_start = Some(now);
            return Action::Accept;
        }
        if self.drop_prob > 0 && draw < self.drop_prob {
            Action::Drop
        } else {
            Action::Accept
        }
    }

    fn dequeue_at(&mut self, queue_len: usize, now: u64) {
    }

    fn update_at(&mut self, queue_len: usize, avg_sojourn_us: u64, now: u64) {
        if elapsed(now, self.last_update) < UPDATE_INTERVAL_US {
            return ;
        }
        let qdelay: u64 = if avg_sojourn_us > 0 {
            avg_sojourn_us
        } else {
            self.estimate_queue_delay(queue_len)
        };
        let proportional: i128 = (ALPHA_PPM_PER_US as i128) * (qdelay as i128
            - TARGET_DELAY_US as i128);
        let integral: i128 = (BETA_PPM_PER_US as i128) * (qdelay as i128
            - self.qdelay_old as i128);
        let moved: i128 = self.drop_prob as i128 + proportional + integral;
        self.drop_prob = if moved < 0 {
            0
        } else if moved > PROB_SCALE as i128 {
            PROB_SCALE
        } else {
            moved as u32
        };
        self.qdelay_old = qdelay;
        self.last_update = now;
    }

    fn name(&self) -> (name: &'static str) {
        "PIE"
    }

    fn reset_at(&mut self, now: u64) {
        self.drop_prob = 0;
        self.qdelay_old = 0;
        self.burst_start = None;
        self.last_update = now;
    }

    fn clone_box_at(&self, now: u64) -> (copy: Box<Self>) {
        Box::new(*self)
    }
}

} // verus!
