//! BLUE: a marking probability that rises on overflow and on a long queue
//! and falls while the queue is short, each at most once per freeze time.

use crate::clock::now_micros;
use crate::network::packet::{Packet, PacketView};
use crate::strategies::codel::elapsed_since;
use crate::strategies::{Action, Strategy, PROB_SCALE};
use vstd::prelude::*;

verus! {

/// Step by which the probability rises (0.02).
pub const D1_PPM: u32 = 20_000;

/// Step by which the probability falls (0.002).
pub const D2_PPM: u32 = 2_000;

/// Least time between two changes in one direction, in microseconds
/// (100 ms).
pub const FREEZE_US: u64 = 100_000;

/// BLUE. The fields are its whole state; instants are microseconds.
#[derive(Debug, Clone, Copy, PartialEq, Eq)]
pub struct Blue {
    /// Probability that an arrival is dropped, in parts per million.
    pub p_mark: u32,
    /// When the periodic adjustment ran last.
    pub last_update: u64,
    pub buffer_size: usize,
    pub last_increase: u64,
    pub last_decrease: u64,
    /// When the buffer overflowed last.
    pub last_loss_event: Option<u64>,
}

/// `p + by`, at most certainty.
pub open spec fn raised(p: u32, by: u32) -> u32 {
    if p + by >= PROB_SCALE {
        PROB_SCALE
    } else {
        (p + by) as u32
    }
}

/// `p - by`, at least zero.
pub open spec fn lowered(p: u32, by: u32) -> u32 {
    if p <= by {
        0
    } else {
        (p - by) as u32
    }
}

/// Whether a draw falls under a probability.
pub open spec fn drawn(prob_ppm: u32, draw: u32) -> bool {
    prob_ppm > 0 && draw < prob_ppm
}

/// The state a constructor gives at `now`.
pub open spec fn blue_initial(buffer_size: usize, now: u64) -> Blue {
    Blue {
        p_mark: 0,
        last_update: now,
        buffer_size,
        last_increase: now,
        last_decrease: now,
        last_loss_event: None,
    }
}

/// Whether the probability may rise at `now`.
pub open spec fn may_increase(s: Blue, now: u64) -> bool {
    elapsed_since(now, s.last_increase) >= FREEZE_US
}

/// Whether the probability may fall at `now`.
pub open spec fn may_decrease(s: Blue, now: u64) -> bool {
    elapsed_since(now, s.last_decrease) >= FREEZE_US
}

/// Whether the queue has reached four fifths of the buffer.
pub open spec fn queue_is_long(queue_len: usize, buffer_size: usize) -> bool {
    5 * queue_len >= 4 * buffer_size
}

/// Whether the queue is under a quarter of the buffer.
pub open spec fn queue_is_short(queue_len: usize, buffer_size: usize) -> bool {
    4 * queue_len < buffer_size
}

/// The state after the first stage of an arrival: a long queue raises the
/// probability by one step where the freeze time allows.
pub open spec fn blue_after_long_queue(s: Blue, queue_len: usize, now: u64) -> Blue {
    if queue_is_long(queue_len, s.buffer_size) && may_increase(s, now) {
        Blue { p_mark: raised(s.p_mark, D1_PPM), last_increase: now, ..s }
    } else {
        s
    }
}

/// An arrival at `now`. On overflow the packet is dropped, the loss is
/// recorded, and a loss within one freeze time before raises the
/// probability by two steps more. Else the packet is dropped with the
/// marking probability.
pub open spec fn blue_enqueue(s: Blue, queue_len: usize, now: u64, draw: u32) -> (Blue, Action) {
    let warned = blue_after_long_queue(s, queue_len, now);
    if queue_len >= s.buffer_size {
        let p_mark = match warned.last_loss_event {
            Some(t) => if elapsed_since(now, t) < FREEZE_US {
                raised(warned.p_mark, (2 * D1_PPM) as u32)
            } else {
                warned.p_mark
            },
            None => warned.p_mark,
        };
        (Blue { p_mark, last_loss_event: Some(now), last_increase: now, ..warned }, Action::Drop)
    } else if drawn(warned.p_mark, draw) {
        (warned, Action::Drop)
    } else {
        (warned, Action::Accept)
    }
}

/// Whether no loss is recent enough at `now` to hold the probability up.
pub open spec fn loss_is_old(s: Blue, now: u64) -> bool {
    match s.last_loss_event {
        Some(t) => elapsed_since(now, t) > 2 * FREEZE_US,
        None => true,
    }
}

/// A departure at `now`: a short queue lowers the probability by one step
/// where the freeze time allows and no loss is recent.
pub open spec fn blue_dequeue(s: Blue, queue_len: usize, now: u64) -> Blue {
    if queue_is_short(queue_len, s.buffer_size) && may_decrease(s, now) && loss_is_old(s, now) {
        Blue { p_mark: lowered(s.p_mark, D2_PPM), last_decrease: now, ..s }
    } else {
        s
    }
}

/// The periodic tick at `now`: once five freeze times have passed, the
/// probability moves half a step towards a queue of half the buffer.
pub open spec fn blue_update(s: Blue, queue_len: usize, now: u64) -> Blue {
    if elapsed_since(now, s.last_update) > 5 * FREEZE_US {
        let target = s.buffer_size / 2;
        let p_mark = if queue_len > target && s.p_mark < PROB_SCALE / 2 {
            raised(s.p_mark, (D1_PPM / 2) as u32)
        } else if queue_len < target / 2 && s.p_mark > PROB_SCALE / 100 {
            lowered(s.p_mark, (D2_PPM / 2) as u32)
        } else {
            s.p_mark
        };
        Blue { p_mark, last_update: now, ..s }
    } else {
        s
    }
}

/// `p + by`, at most certainty.
pub fn raise(p: u32, by: u32) -> (r: u32)
    ensures
        r == raised(p, by),
        r <= PROB_SCALE,
        p <= PROB_SCALE ==> p <= r,
{
    if p as u64 + by as u64 >= PROB_SCALE as u64 {
        PROB_SCALE
    } else {
        p + by
    }
}

/// `p - by`, at least zero.
pub fn lower(p: u32, by: u32) -> (r: u32)
    ensures
        r == lowered(p, by),
        r <= p,
{
    if p <= by {
        0
    } else {
        p - by
    }
}

/// `now - earlier`, or zero where `earlier` is the later instant.
pub fn elapsed(now: u64, earlier: u64) -> (micros: u64)
    ensures
        micros == elapsed_since(now, earlier),
{
    if now >= earlier {
        now - earlier
    } else {
        0
    }
}

impl Blue {
    /// BLUE for a buffer of `buffer_size` packets, made now. The clock is
    /// read here.
    pub fn new(buffer_size: usize) -> (strategy: Self)
        ensures
            strategy.inv(),
            exists|now: u64| strategy == #[trigger] blue_initial(buffer_size, now),
    {
        Blue::new_at(buffer_size, now_micros())
    }

    /// BLUE for a buffer of `buffer_size` packets, made at `now`
    /// (microseconds).
    pub fn new_at(buffer_size: usize, now: u64) -> (strategy: Self)
        ensures
            strategy == blue_initial(buffer_size, now),
            strategy.inv(),
    {
        Blue {
            p_mark: 0,
            last_update: now,
            buffer_size,
            last_increase: now,
            last_decrease: now,
            last_loss_event: None,
        }
    }

    /// Whether the probability may rise at `now`.
    pub fn can_increase(&self, now: u64) -> (allowed: bool)
        ensures
            allowed == may_increase(*self, now),
    {
        elapsed(now, self.last_increase) >= FREEZE_US
    }

    /// Whether the probability may fall at `now`.
    pub fn can_decrease(&self, now: u64) -> (allowed: bool)
        ensures
            allowed == may_decrease(*self, now),
    {
        elapsed(now, self.last_decrease) >= FREEZE_US
    }
}

impl Strategy for Blue {
    type State = Blue;

    open spec fn state(&self) -> Blue {
        *self
    }

    open spec fn inv(&self) -> bool {
        self.p_mark <= PROB_SCALE
    }

    open spec fn enqueue_spec(
        pre: Blue,
        packet: PacketView,
        queue_len: usize,
        now: u64,
        draw: u32,
    ) -> (Blue, Action) {
        blue_enqueue(pre, queue_len, now, draw)
    }

    open spec fn dequeue_spec(pre: Blue, queue_len: usize, now: u64) -> Blue {
        blue_dequeue(pre, queue_len, now)
    }

    open spec fn update_spec(pre: Blue, queue_len: usize, avg_sojourn_us: u64, now: u64) -> Blue {
        blue_update(pre, queue_len, now)
    }

    open spec fn reset_spec(pre: Blue, now: u64) -> Blue {
        blue_initial(pre.buffer_size, now)
    }

    open spec fn clone_spec(pre: Blue, now: u64) -> Blue {
        blue_initial(pre.buffer_size, now)
    }

    open spec fn name_spec(pre: Blue) -> Seq<char> {
        "BLUE"@
    }

    proof fn lemma_reset_forgets_arrival(
        pre: Self::State,
        packet: PacketView,
        queue_len: usize,
        now: u64,
        draw: u32,
        at: u64,
    ) {
    }

    proof fn lemma_reset_forgets_departure(pre: Self::State, queue_len: usize, now: u64, at: u64) {
    }

    proof fn lemma_reset_forgets_tick(
        pre: Self::State,
        queue_len: usize,
        avg_sojourn_us: u64,
        now: u64,
        at: u64,
    ) {
    }

    fn enqueue_at(&mut self, packet: &Packet, queue_len: usize, now: u64, draw: u32) -> (action:
        Action) {
        if 5 * (queue_len as u128) >= 4 * (self.buffer_size as u128) && self.can_increase(now) {
            self.p_mark = raise(self.p_mark, D1_PPM);
            self.last_increase = now;
        }
        if queue_len >= self.buffer_size {
            match self.last_loss_event {
                Some(t) => {
                    if elapsed(now, t) < FREEZE_US {
                        self.p_mark = raise(self.p_mark, 2 * D1_PPM);
                    }
                },
                None => {},
            }
            self.last_loss_event = Some(now);
            self.last_increase = now;
            return Action::Drop;
        }
        if self.p_mark > 0 && draw < self.p_mark {
            Action::Drop
        } else {
            Action::Accept
        }
    }

    fn dequeue_at(&mut self, queue_len: usize, now: u64) {
        if 4 * (queue_len as u128) < self.buffer_size as u128 && self.can_decrease(now) {
            let loss_is_old = match self.last_loss_event {
                Some(t) => elapsed(now, t) > 2 * FREEZE_US,
                None => true,
            };
            if loss_is_old {
                self.p_mark = lower(self.p_mark, D2_PPM);
                self.last_decrease = now;
            }
        }
    }

    fn update_at(&mut self, queue_len: usize, avg_sojourn_us: u64, now: u64) {
        if elapsed(now, self.last_update) > 5 * FREEZE_US {
            let target = self.buffer_size / 2;
            if queue_len > target && self.p_mark < PROB_SCALE / 2 {
                self.p_mark = raise(self.p_mark, D1_PPM / 2);
            } else if queue_len < target / 2 && self.p_mark > PROB_SCALE / 100 {
                self.p_mark = lower(self.p_mark, D2_PPM / 2);
            }
            self.last_update = now;
        }
    }

    fn name(&self) -> (name: &'static str) {
        "BLUE"
    }

    fn reset_at(&mut self, now: u64) {
        self.p_mark = 0;
        self.last_update = now;
        self.last_increase = now;
        self.last_decrease = now;
        self.last_loss_event = None;
    }

    fn clone_box_at(&self, now: u64) -> (copy: Box<Self>) {
        Box::new(Blue::new_at(self.buffer_size, now))
    }
}

} // verus!
