//! RED and Adaptive RED: early drops with a probability that grows with a
//! moving average of the queue length.

use crate::clock::now_micros;
use crate::network::packet::{Packet, PacketView};
use crate::strategies::blue::{drawn, elapsed};
use crate::strategies::codel::elapsed_since;
use crate::strategies::{Action, Strategy, PROB_SCALE};
use vstd::arithmetic::power::{lemma_pow0, lemma_pow_positive, pow};
use vstd::prelude::*;

verus! {

/// Queue lengths are averaged in millionths of a packet.
pub const AVG_SCALE: u128 = 1_000_000;

/// The moving average keeps 49 parts of 50 of its old value (weight 0.02
/// for the new sample).
pub const EWMA_KEEP: u128 = 49;

/// Parts that the old value and the sample share.
pub const EWMA_PARTS: u128 = 50;

/// Drop probability at the upper threshold (0.1), in parts per million.
pub const INITIAL_MAX_P: u32 = 100_000;

/// Least lower threshold: 5 packets.
pub const MIN_TH_FLOOR: u128 = 5_000_000;

/// Time between two adaptations of `max_p`, in microseconds (500 ms).
pub const ADAPT_INTERVAL_US: u64 = 500_000;

/// Largest step by which `max_p` rises (0.01).
pub const ADAPT_ALPHA: u32 = 10_000;

/// `max_p` rises only while it is under this (0.5).
pub const ADAPT_CEILING: u32 = 500_000;

/// `max_p` falls only while it is above this (0.01).
pub const ADAPT_FLOOR: u32 = 10_000;

/// RED. Thresholds and the average are in millionths of a packet,
/// probabilities in parts per million.
#[derive(Debug, Clone, Copy, PartialEq, Eq, Structural)]
pub struct Red {
    /// Below this average nothing is dropped: 0.3 of the buffer, at least
    /// 5 packets.
    pub min_th: u128,
    /// From this average on everything is dropped: 0.9 of the buffer.
    pub max_th: u128,
    /// Drop probability as the average reaches `max_th`.
    pub max_p: u32,
    /// Moving average of the queue length.
    pub avg_queue: u128,
    /// Packets accepted since the last drop.
    pub count: usize,
}

/// The lower threshold of a buffer: 0.3 of it, at least 5 packets.
pub open spec fn red_min_th(buffer_size: usize) -> u128 {
    if buffer_size * 300_000 < MIN_TH_FLOOR {
        MIN_TH_FLOOR
    } else {
        (buffer_size * 300_000) as u128
    }
}

/// The upper threshold of a buffer: 0.9 of it.
pub open spec fn red_max_th(buffer_size: usize) -> u128 {
    (buffer_size * 900_000) as u128
}

/// The state a constructor gives.
pub open spec fn red_initial(buffer_size: usize) -> Red {
    Red {
        min_th: red_min_th(buffer_size),
        max_th: red_max_th(buffer_size),
        max_p: INITIAL_MAX_P,
        avg_queue: 0,
        count: 0,
    }
}

/// The moving average after a sample of `queue_len` packets:
/// `0.98 * avg + 0.02 * queue_len`, rounded down to a millionth.
pub open spec fn ewma(avg: u128, queue_len: usize) -> u128 {
    ((EWMA_KEEP * avg + queue_len * AVG_SCALE) / (EWMA_PARTS as int)) as u128
}

/// The base probability inside the band: `max_p` times the part of the
/// band that the average has crossed, rounded down.
pub open spec fn red_base_probability(s: Red, avg: u128) -> int
    recommends
        s.min_th <= avg < s.max_th,
{
    (avg - s.min_th) * s.max_p / (s.max_th - s.min_th)
}

/// The drop probability at an average: none below `min_th`, certainty from
/// `max_th` on, and between them the base probability `p_b` spread over
/// the packets accepted since the last drop, `p_b / (1 - count * p_b)`,
/// kept at most certainty.
pub open spec fn red_probability(s: Red, avg: u128) -> u32 {
    if avg < s.min_th {
        0
    } else if avg >= s.max_th {
        PROB_SCALE
    } else {
        let p_b = red_base_probability(s, avg);
        let rest = PROB_SCALE - s.count * p_b;
        if rest <= 0 {
            PROB_SCALE
        } else if p_b * PROB_SCALE / rest >= PROB_SCALE {
            PROB_SCALE
        } else {
            (p_b * PROB_SCALE / rest) as u32
        }
    }
}

/// A count after one more packet: it stops at the largest value.
pub open spec fn counted(count: usize) -> usize {
    if count == usize::MAX {
        usize::MAX
    } else {
        (count + 1) as usize
    }
}

/// An arrival: the average takes the queue length in, and the packet is
/// dropped for certain from `max_th` on, else with the drop probability.
/// A drop restarts the count of accepted packets.
pub open spec fn red_enqueue(s: Red, queue_len: usize, draw: u32) -> (Red, Action) {
    let avg = ewma(s.avg_queue, queue_len);
    let p = red_probability(s, avg);
    if p >= PROB_SCALE || drawn(p, draw) {
        (Red { avg_queue: avg, count: 0, ..s }, Action::Drop)
    } else {
        (Red { avg_queue: avg, count: counted(s.count), ..s }, Action::Accept)
    }
}

/// The periodic tick: the average takes the queue length in.
pub open spec fn red_update(s: Red, queue_len: usize) -> Red {
    Red { avg_queue: ewma(s.avg_queue, queue_len), ..s }
}

/// The state after a reset.
pub open spec fn red_reset(s: Red) -> Red {
    Red { avg_queue: 0, count: 0, ..s }
}

/// Largest average that a queue length can give.
pub open spec fn avg_limit() -> int {
    usize::MAX * AVG_SCALE
}

/// What holds of every reachable state.
pub open spec fn red_valid(s: Red) -> bool {
    &&& s.max_p <= PROB_SCALE
    &&& s.avg_queue <= avg_limit()
    &&& s.min_th <= avg_limit()
    &&& s.max_th <= avg_limit()
}

/// The moving average lies between its old value and the sample.
pub proof fn lemma_ewma_between(avg: u128, queue_len: usize)
    requires
        avg <= avg_limit(),
    ensures
        ewma(avg, queue_len) <= avg_limit(),
        avg <= queue_len * AVG_SCALE ==> avg <= ewma(avg, queue_len) <= queue_len * AVG_SCALE,
        avg >= queue_len * AVG_SCALE ==> queue_len * AVG_SCALE <= ewma(avg, queue_len) <= avg,
{
    let q: int = queue_len * AVG_SCALE;
    assert(q <= avg_limit()) by (nonlinear_arith)
        requires
            q == queue_len * AVG_SCALE,
            queue_len <= usize::MAX,
    ;
}

/// While the queue stays below the lower threshold, so does the average,
/// and no arrival is dropped.
pub proof fn lemma_red_accepts_below_min(s: Red, queue_len: usize, draw: u32)
    requires
        red_valid(s),
        s.avg_queue < s.min_th,
        queue_len * AVG_SCALE < s.min_th,
    ensures
        red_enqueue(s, queue_len, draw).1 == Action::Accept,
        red_enqueue(s, queue_len, draw).0.avg_queue < s.min_th,
        red_update(s, queue_len).avg_queue < s.min_th,
{
    lemma_ewma_between(s.avg_queue, queue_len);
}

/// Once the average has reached the upper threshold and the queue stays at
/// or above it, the average stays there and every arrival is dropped. (In
/// a buffer so small that the lower threshold of 5 packets lies above the
/// upper one, this holds from the lower threshold on.)
pub proof fn lemma_red_drops_above_max(s: Red, queue_len: usize, draw: u32)
    requires
        red_valid(s),
        s.avg_queue >= s.max_th,
        queue_len * AVG_SCALE >= s.max_th,
        s.avg_queue >= s.min_th,
        queue_len * AVG_SCALE >= s.min_th,
    ensures
        red_enqueue(s, queue_len, draw).1 == Action::Drop,
        red_enqueue(s, queue_len, draw).0.avg_queue >= s.max_th,
        red_enqueue(s, queue_len, draw).0.avg_queue >= s.min_th,
        red_update(s, queue_len).avg_queue >= s.max_th,
        red_update(s, queue_len).avg_queue >= s.min_th,
{
    lemma_ewma_between(s.avg_queue, queue_len);
}

/// The average after `n` samples of the same queue length.
pub open spec fn ewma_repeated(avg: u128, queue_len: usize, n: nat) -> u128
    decreases n,
{
    if n == 0 {
        avg
    } else {
        ewma(ewma_repeated(avg, queue_len, (n - 1) as nat), queue_len)
    }
}

/// With every sample the distance of the average to the sample, less
/// fifty millionths of a packet, falls to 49 parts of 50 of itself or
/// lower.
pub proof fn lemma_ewma_closes_in(avg: u128, queue_len: usize)
    requires
        avg <= avg_limit(),
    ensures
        EWMA_PARTS * (queue_len * AVG_SCALE - ewma(avg, queue_len) - EWMA_PARTS) <= EWMA_KEEP * (
        queue_len * AVG_SCALE - avg - EWMA_PARTS),
{
    let sample: int = queue_len * AVG_SCALE;
    assert(sample <= avg_limit()) by (nonlinear_arith)
        requires
            sample == queue_len * AVG_SCALE,
            queue_len <= usize::MAX,
    ;
}

/// Under a queue that is held at one length the average closes in on it
/// at the pace of a geometric sequence: after `n` samples its distance to
/// the sample, less fifty millionths of a packet, is at most `(49/50)^n`
/// of what it was. So the average has reached the upper threshold as soon
/// as that bound lies under the distance of the threshold to the sample,
/// and from then on every arrival is dropped.
pub proof fn lemma_red_average_climbs(s: Red, queue_len: usize, n: nat)
    requires
        red_valid(s),
    ensures
        ewma_repeated(s.avg_queue, queue_len, n) <= avg_limit(),
        (queue_len * AVG_SCALE - ewma_repeated(s.avg_queue, queue_len, n) - EWMA_PARTS) * pow(
            50,
            n,
        ) <= (queue_len * AVG_SCALE - s.avg_queue - EWMA_PARTS) * pow(49, n),
        (queue_len * AVG_SCALE - s.avg_queue - EWMA_PARTS) * pow(49, n) <= (queue_len * AVG_SCALE
            - s.max_th - EWMA_PARTS) * pow(50, n) ==> ewma_repeated(s.avg_queue, queue_len, n)
            >= s.max_th,
    decreases n,
{
    let sample: int = queue_len * AVG_SCALE;
    let after = ewma_repeated(s.avg_queue, queue_len, n);
    let start: int = sample - s.avg_queue - EWMA_PARTS;
    lemma_pow_positive(50, n);
    if n == 0 {
        lemma_pow0(50);
        lemma_pow0(49);
    } else {
        let m = (n - 1) as nat;
        lemma_red_average_climbs(s, queue_len, m);
        let before = ewma_repeated(s.avg_queue, queue_len, m);
        lemma_ewma_between(before, queue_len);
        lemma_ewma_closes_in(before, queue_len);
        lemma_pow_positive(50, m);
        assert(pow(50, n) == 50 * pow(50, m) && pow(49, n) == 49 * pow(49, m)) by {
            reveal(pow);
        }
        let a: int = sample - after - EWMA_PARTS;
        let b: int = sample - before - EWMA_PARTS;
        let scale = pow(50, m);
        let kept = pow(49, m);
        assert(a * (50 * scale) <= start * (49 * kept)) by (nonlinear_arith)
            requires
                50 * a <= 49 * b,
                b * scale <= start * kept,
                scale > 0,
        ;
    }
    let a: int = sample - after - EWMA_PARTS;
    let reach: int = sample - s.max_th - EWMA_PARTS;
    let p = pow(50, n);
    if start * pow(49, n) <= reach * p {
        assert(a <= reach) by (nonlinear_arith)
            requires
                a * p <= reach * p,
                p > 0,
        ;
    }
}

impl Red {
    /// RED for a buffer of `buffer_size` packets.
    pub fn new(buffer_size: usize) -> (strategy: Self)
        ensures
            strategy == red_initial(buffer_size),
            strategy.inv(),
    {
        assert(buffer_size * 900_000 <= usize::MAX * AVG_SCALE) by (nonlinear_arith)
            requires
                buffer_size <= usize::MAX,
        ;
        assert(buffer_size * 300_000 <= usize::MAX * AVG_SCALE) by (nonlinear_arith)
            requires
                buffer_size <= usize::MAX,
        ;
        assert(MIN_TH_FLOOR <= usize::MAX * AVG_SCALE) by (nonlinear_arith);
        let scaled: u128 = (buffer_size as u128) * 300_000;
        let min_th: u128 = if scaled < MIN_TH_FLOOR { MIN_TH_FLOOR } else { scaled };
        Red {
            min_th,
            max_th: (buffer_size as u128) * 900_000,
            max_p: INITIAL_MAX_P,
            avg_queue: 0,
            count: 0,
        }
    }

    /// The moving average after a sample of `queue_len` packets.
    pub fn averaged(&self, queue_len: usize) -> (avg: u128)
        requires
            self.inv(),
        ensures
            avg == ewma(self.avg_queue, queue_len),
            avg <= avg_limit(),
    {
        proof {
            lemma_ewma_between(self.avg_queue, queue_len);
            assert(queue_len * AVG_SCALE <= usize::MAX * AVG_SCALE) by (nonlinear_arith)
                requires
                    queue_len <= usize::MAX,
            ;
        }
        (EWMA_KEEP * self.avg_queue + (queue_len as u128) * AVG_SCALE) / EWMA_PARTS
    }

    /// The drop probability at an average, in parts per million.
    pub fn calc_probability(&self, avg: u128) -> (p: u32)
        requires
            self.inv(),
        ensures
            p == red_probability(*self, avg),
            p <= PROB_SCALE,
    {
        if avg < self.min_th {
            return 0;
        }
        if avg >= self.max_th {
            return PROB_SCALE;
        }
        let crossed: u128 = avg - self.min_th;
        let band: u128 = self.max_th - self.min_th;
        assert(crossed * self.max_p <= avg_limit() * PROB_SCALE) by (nonlinear_arith)
            requires
                0 <= crossed <= avg_limit(),
                0 <= self.max_p <= PROB_SCALE,
        ;
        let p_b: u128 = crossed * (self.max_p as u128) / band;
        assert(p_b <= self.max_p) by (nonlinear_arith)
            requires
                p_b == crossed * self.max_p / (band as int),
                0 <= crossed < band,
                0 <= self.max_p,
        ;
        assert(self.count * p_b <= usize::MAX * PROB_SCALE) by (nonlinear_arith)
            requires
                0 <= self.count <= usize::MAX,
                0 <= p_b <= PROB_SCALE,
        ;
        let spread: u128 = (self.count as u128) * p_b;
        if spread >= PROB_SCALE as u128 {
            return PROB_SCALE;
        }
        let rest: u128 = PROB_SCALE as u128 - spread;
        assert(p_b * PROB_SCALE <= PROB_SCALE * PROB_SCALE) by (nonlinear_arith)
            requires
                0 <= p_b <= PROB_SCALE,
        ;
        let p: u128 = p_b * (PROB_SCALE as u128) / rest;
        if p >= PROB_SCALE as u128 {
            PROB_SCALE
        } else {
            p as u32
        }
    }
}

impl Strategy for Red {
    type State = Red;

    open spec fn state(&self) -> Red {
        *self
    }

    open spec fn inv(&self) -> bool {
        red_valid(*self)
    }

    open spec fn enqueue_spec(
        pre: Red,
        packet: PacketView,
        queue_len: usize,
        now: u64,
        draw: u32,
    ) -> (Red, Action) {
        red_enqueue(pre, queue_len, draw)
    }

    open spec fn dequeue_spec(pre: Red, queue_len: usize, now: u64) -> Red {
        pre
    }

    open spec fn update_spec(pre: Red, queue_len: usize, avg_sojourn_us: u64, now: u64) -> Red {
        red_update(pre, queue_len)
    }

    open spec fn reset_spec(pre: Red, now: u64) -> Red {
        red_reset(pre)
    }

    open spec fn clone_spec(pre: Red, now: u64) -> Red {
        pre
    }

    open spec fn name_spec(pre: Red) -> Seq<char> {
        "RED"@
    }

    proof fn lemma_reset_forgets_arrival(
        pre: Self::State,
        packet: PacketView,
        queue_len: usize,
        now: u64,
        draw: u32,
        at: u64,
    ) {
    }

    proof fn lemma_reset_forgets_departure(pre: Self::State, queue_len: usize, now: u64, at: u64) {
    }

    proof fn lemma_reset_forgets_tick(
        pre: Self::State,
        queue_len: usize,
        avg_sojourn_us: u64,
        now: u64,
        at: u64,
    ) {
    }

    fn enqueue_at(&mut self, packet: &Packet, queue_len: usize, now: u64, draw: u32) -> (action:
        Action) {
        let avg = self.averaged(queue_len);
        let drop_prob = self.calc_probability(avg);
        self.avg_queue = avg;
        if drop_prob >= PROB_SCALE || (drop_prob > 0 && draw < drop_prob) {
            self.count = 0;
            Action::Drop
        } else {
            if self.count < usize::MAX {
                self.count = self.count + 1;
            }
            Action::Accept
        }
    }

    fn dequeue_at(&mut self, queue_len: usize, now: u64) {
    }

    fn update_at(&mut self, queue_len: usize, avg_sojourn_us: u64, now: u64) {
        self.avg_queue = self.averaged(queue_len);
    }

    fn name(&self) -> (name: &'static str) {
        "RED"
    }

    fn reset_at(&mut self, now: u64) {
        self.avg_queue = 0;
        self.count = 0;
    }

    fn clone_box_at(&self, now: u64) -> (copy: Box<Self>) {
        Box::new(*self)
    }
}

/// Adaptive RED: RED whose `max_p` follows the average towards the middle
/// of the band.
#[derive(Debug, Clone, Copy, PartialEq, Eq, Structural)]
pub struct AdaptiveRed {
    pub red: Red,
    /// The middle of the band, in millionths of a packet.
    pub target: u128,
    /// When `max_p` was adapted last, in microseconds.
    pub last_update: u64,
}

/// The state a constructor gives at `now`.
pub open spec fn ared_initial(buffer_size: usize, now: u64) -> AdaptiveRed {
    AdaptiveRed {
        red: red_initial(buffer_size),
        target: ((red_min_th(buffer_size) + red_max_th(buffer_size)) / 2) as u128,
        last_update: now,
    }
}

/// `max_p` after an adaptation: below the target it rises by a quarter of
/// itself, at most by 0.01, while it is under 0.5; above the target it
/// falls to nine tenths of itself while it is above 0.01.
pub open spec fn adapted_max_p(max_p: u32, avg: u128, target: u128) -> u32 {
    if avg < target && max_p < ADAPT_CEILING {
        if max_p / 4 < ADAPT_ALPHA {
            (max_p + max_p / 4) as u32
        } else {
            (max_p + ADAPT_ALPHA) as u32
        }
    } else if avg > target && max_p > ADAPT_FLOOR {
        (max_p * 9 / 10) as u32
    } else {
        max_p
    }
}

/// The periodic tick at `now`: the average takes the queue length in, and
/// every 500 ms `max_p` is adapted.
pub open spec fn ared_update(s: AdaptiveRed, queue_len: usize, now: u64) -> AdaptiveRed {
    let red = red_update(s.red, queue_len);
    if elapsed_since(now, s.last_update) >= ADAPT_INTERVAL_US {
        AdaptiveRed {
            red: Red { max_p: adapted_max_p(red.max_p, red.avg_queue, s.target), ..red },
            last_update: now,
            ..s
        }
    } else {
        AdaptiveRed { red, ..s }
    }
}

/// The state after a reset at `now`.
pub open spec fn ared_reset(s: AdaptiveRed, now: u64) -> AdaptiveRed {
    AdaptiveRed {
        red: Red { max_p: INITIAL_MAX_P, ..red_reset(s.red) },
        last_update: now,
        ..s
    }
}

impl AdaptiveRed {
    /// Adaptive RED for a buffer of `buffer_size` packets, made now. The
    /// clock is read here.
    pub fn new(buffer_size: usize) -> (strategy: Self)
        ensures
            strategy.inv(),
            exists|now: u64| strategy == #[trigger] ared_initial(buffer_size, now),
    {
        AdaptiveRed::new_at(buffer_size, now_micros())
    }

    /// Adaptive RED for a buffer of `buffer_size` packets, made at `now`
    /// (microseconds).
    pub fn new_at(buffer_size: usize, now: u64) -> (strategy: Self)
        ensures
            strategy == ared_initial(buffer_size, now),
            strategy.inv(),
    {
        let red = Red::new(buffer_size);
        assert(usize::MAX * AVG_SCALE * 2 < u128::MAX) by (nonlinear_arith);
        let target: u128 = (red.min_th + red.max_th) / 2;
        AdaptiveRed { red, target, last_update: now }
    }
}

impl Strategy for AdaptiveRed {
    type State = AdaptiveRed;

    open spec fn state(&self) -> AdaptiveRed {
        *self
    }

    open spec fn inv(&self) -> bool {
        red_valid(self.red)
    }

    open spec fn enqueue_spec(
        pre: AdaptiveRed,
        packet: PacketView,
        queue_len: usize,
        now: u64,
        draw: u32,
    ) -> (AdaptiveRed, Action) {
        let (red, action) = red_enqueue(pre.red, queue_len, draw);
        (AdaptiveRed { red, ..pre }, action)
    }

    open spec fn dequeue_spec(pre: AdaptiveRed, queue_len: usize, now: u64) -> AdaptiveRed {
        pre
    }

    open spec fn update_spec(pre: AdaptiveRed, queue_len: usize, avg_sojourn_us: u64, now: u64)
        -> AdaptiveRed {
        ared_update(pre, queue_len, now)
    }

    open spec fn reset_spec(pre: AdaptiveRed, now: u64) -> AdaptiveRed {
        ared_reset(pre, now)
    }

    open spec fn clone_spec(pre: AdaptiveRed, now: u64) -> AdaptiveRed {
        pre
    }

    open spec fn name_spec(pre: AdaptiveRed) -> Seq<char> {
        "Adaptive-RED"@
    }

    proof fn lemma_reset_forgets_arrival(
        pre: Self::State,
        packet: PacketView,
        queue_len: usize,
        now: u64,
        draw: u32,
        at: u64,
    ) {
    }

    proof fn lemma_reset_forgets_departure(pre: Self::State, queue_len: usize, now: u64, at: u64) {
    }

    proof fn lemma_reset_forgets_tick(
        pre: Self::State,
        queue_len: usize,
        avg_sojourn_us: u64,
        now: u64,
        at: u64,
    ) {
    }

    fn enqueue_at(&mut self, packet: &Packet, queue_len: usize, now: u64, draw: u32) -> (action:
        Action) {
        self.red.enqueue_at(packet, queue_len, now, draw)
    }

    fn dequeue_at(&mut self, queue_len: usize, now: u64) {
        self.red.dequeue_at(queue_len, now);
    }

    fn update_at(&mut self, queue_len: usize, avg_sojourn_us: u64, now: u64) {
        self.red.update_at(queue_len, avg_sojourn_us, now);
        if elapsed(now, self.last_update) >= ADAPT_INTERVAL_US {
            if self.red.avg_queue < self.target && self.red.max_p < ADAPT_CEILING {
                let quarter = self.red.max_p / 4;
                let step = if quarter < ADAPT_ALPHA { quarter } else { ADAPT_ALPHA };
                self.red.max_p = self.red.max_p + step;
            } else if self.red.avg_queue > self.target && self.red.max_p > ADAPT_FLOOR {
                self.red.max_p = self.red.max_p * 9 / 10;
            }
            self.last_update = now;
        }
    }

    fn name(&self) -> (name: &'static str) {
        "Adaptive-RED"
    }

    fn reset_at(&mut self, now: u64) {
        self.red.reset_at(now);
        self.red.max_p = INITIAL_MAX_P;
        self.last_update = now;
    }

    fn clone_box_at(&self, now: u64) -> (copy: Box<Self>) {
        Box::new(*self)
    }
}

} // verus!
