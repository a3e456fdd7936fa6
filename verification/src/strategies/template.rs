//! A small policy to start a new one from: it drops once the buffer is
//! fuller than a threshold, and counts its drops.

use crate::network::packet::{Packet, PacketView};
use crate::strategies::{Action, Strategy, PROB_SCALE};
use vstd::prelude::*;

verus! {

/// Share of the buffer above which arrivals are dropped unless another
/// threshold is set (0.8), in parts per million.
pub const DEFAULT_THRESHOLD_PPM: u32 = 800_000;

/// A threshold policy. The fields are its whole state.
#[derive(Debug, Clone, Copy, PartialEq, Eq, Structural)]
pub struct MyStrategy {
    pub buffer_size: usize,
    /// Share of the buffer above which arrivals are dropped, in parts per
    /// million.
    pub threshold_ppm: u32,
    /// Arrivals dropped since the last reset.
    pub drop_count: u64,
}

/// Whether `queue_len` of `buffer_size` is a larger share than
/// `threshold_ppm`. In a buffer of size zero every queue but the empty one
/// is.
pub open spec fn above_threshold(queue_len: usize, buffer_size: usize, threshold_ppm: u32) -> bool {
    queue_len * PROB_SCALE > threshold_ppm * buffer_size
}

/// An arrival: dropped and counted when the buffer is fuller than the
/// threshold.
pub open spec fn threshold_enqueue(s: MyStrategy, queue_len: usize) -> (MyStrategy, Action) {
    if above_threshold(queue_len, s.buffer_size, s.threshold_ppm) {
        (
            MyStrategy {
                drop_count: if s.drop_count == u64::MAX {
                    u64::MAX
                } else {
                    (s.drop_count + 1) as u64
                },
                ..s
            },
            Action::Drop,
        )
    } else {
        (s, Action::Accept)
    }
}

impl MyStrategy {
    pub fn new(buffer_size: usize) -> (strategy: Self)
        ensures
            strategy == (MyStrategy {
                buffer_size,
                threshold_ppm: DEFAULT_THRESHOLD_PPM,
                drop_count: 0,
            }),
    {
        MyStrategy { buffer_size, threshold_ppm: DEFAULT_THRESHOLD_PPM, drop_count: 0 }
    }

    /// The same policy with another threshold, in parts per million of the
    /// buffer.
    pub fn with_threshold(self, threshold_ppm: u32) -> (strategy: Self)
        ensures
            strategy == (MyStrategy { threshold_ppm, ..self }),
    {
        MyStrategy { threshold_ppm, ..self }
    }

    /// The same policy; a place for a parameter of a policy made from
    /// this one.
    pub fn with_custom_param(self, param: u64) -> (strategy: Self)
        ensures
            strategy == self,
    {
        self
    }
}

impl Strategy for MyStrategy {
    type State = MyStrategy;

    open spec fn state(&self) -> MyStrategy {
        *self
    }

    open spec fn inv(&self) -> bool {
        true
    }

    open spec fn enqueue_spec(
        pre: MyStrategy,
        packet: PacketView,
        queue_len: usize,
        now: u64,
        draw: u32,
    ) -> (MyStrategy, Action) {
        threshold_enqueue(pre, queue_len)
    }

    open spec fn dequeue_spec(pre: MyStrategy, queue_len: usize, now: u64) -> MyStrategy {
        pre
    }

    open spec fn update_spec(pre: MyStrategy, queue_len: usize, avg_sojourn_us: u64, now: u64)
        -> MyStrategy {
        pre
    }

    open spec fn reset_spec(pre: MyStrategy, now: u64) -> MyStrategy {
        MyStrategy { drop_count: 0, ..pre }
    }

    open spec fn clone_spec(pre: MyStrategy, now: u64) -> MyStrategy {
        pre
    }

    open spec fn name_spec(pre: MyStrategy) -> Seq<char> {
        "MyStrategy"@
    }

    proof fn lemma_reset_forgets_arrival(
        pre: Self::State,
        packet: PacketView,
        queue_len: usize,
        now: u64,
        draw: u32,
        at: u64,
    ) {
    }

    proof fn lemma_reset_forgets_departure(pre: Self::State, queue_len: usize, now: u64, at: u64) {
    }

    proof fn lemma_reset_forgets_tick(
        pre: Self::State,
        queue_len: usize,
        avg_sojourn_us: u64,
        now: u64,
        at: u64,
    ) {
    }

    fn enqueue_at(&mut self, packet: &Packet, queue_len: usize, now: u64, draw: u32) -> (action:
        Action) {
        assert(queue_len * PROB_SCALE <= usize::MAX * PROB_SCALE) by (nonlinear_arith)
            requires
                queue_len <= usize::MAX,
        ;
        assert(self.threshold_ppm * self.buffer_size <= u32::MAX * usize::MAX)
            by (nonlinear_arith)
            requires
                self.threshold_ppm <= u32::MAX,
                self.buffer_size <= usize::MAX,
        ;
        if (queue_len as u128) * (PROB_SCALE as u128) > (self.threshold_ppm as u128) * (
        self.buffer_size as u128) {
            if self.drop_count < u64::MAX {
                self.drop_count = self.drop_count + 1;
            }
            Action::Drop
        } else {
            Action::Accept
        }
    }

    fn dequeue_at(&mut self, queue_len: usize, now: u64) {
    }

    fn update_at(&mut self, queue_len: usize, avg_sojourn_us: u64, now: u64) {
    }

    fn name(&self) -> (name: &'static str) {
        "MyStrategy"
    }

    fn reset_at(&mut self, now: u64) {
        self.drop_count = 0;
    }

    fn clone_box_at(&self, now: u64) -> (copy: Box<Self>) {
        Box::new(*self)
    }
}

} // verus!
