//! Policies without state: both drop an arrival exactly when the buffer is
//! full.

use crate::network::packet::{Packet, PacketView};
use crate::strategies::{Action, Strategy};
use vstd::prelude::*;

verus! {

/// The decision of a tail-drop buffer of `buffer_size` packets.
pub open spec fn tail_drop(buffer_size: usize, queue_len: usize) -> Action {
    if queue_len >= buffer_size {
        Action::Drop
    } else {
        Action::Accept
    }
}

/// Drops an arrival exactly when the queue is full.
#[derive(Debug, Clone, Copy, PartialEq, Eq, Structural)]
pub struct DropTail {
    pub buffer_size: usize,
}

impl DropTail {
    pub fn new(buffer_size: usize) -> (strategy: Self)
        ensures
            strategy.buffer_size == buffer_size,
    {
        DropTail { buffer_size }
    }
}

impl Strategy for DropTail {
    type State = DropTail;

    open spec fn state(&self) -> DropTail {
        *self
    }

    open spec fn inv(&self) -> bool {
        true
    }

    open spec fn enqueue_spec(
        pre: DropTail,
        packet: PacketView,
        queue_len: usize,
        now: u64,
        draw: u32,
    ) -> (DropTail, Action) {
        (pre, tail_drop(pre.buffer_size, queue_len))
    }

    open spec fn dequeue_spec(pre: DropTail, queue_len: usize, now: u64) -> DropTail {
        pre
    }

    open spec fn update_spec(pre: DropTail, queue_len: usize, avg_sojourn_us: u64, now: u64)
        -> DropTail {
        pre
    }

    open spec fn reset_spec(pre: DropTail, now: u64) -> DropTail {
        pre
    }

    open spec fn clone_spec(pre: DropTail, now: u64) -> DropTail {
        pre
    }

    open spec fn name_spec(pre: DropTail) -> Seq<char> {
        "DropTail"@
    }

    proof fn lemma_reset_forgets_arrival(
        pre: Self::State,
        packet: PacketView,
        queue_len: usize,
        now: u64,
        draw: u32,
        at: u64,
    ) {
    }

    proof fn lemma_reset_forgets_departure(pre: Self::State, queue_len: usize, now: u64, at: u64) {
    }

    proof fn lemma_reset_forgets_tick(
        pre: Self::State,
        queue_len: usize,
        avg_sojourn_us: u64,
        now: u64,
        at: u64,
    ) {
    }

    fn enqueue_at(&mut self, packet: &Packet, queue_len: usize, now: u64, draw: u32) -> (action:
        Action)
        ensures
            action == Action::Drop <==> queue_len >= old(self).buffer_size,
            action == Action::Accept <==> queue_len < old(self).buffer_size,
    {
        if queue_len >= self.buffer_size {
            Action::Drop
        } else {
            Action::Accept
        }
    }

    fn dequeue_at(&mut self, queue_len: usize, now: u64) {
    }

    fn update_at(&mut self, queue_len: usize, avg_sojourn_us: u64, now: u64) {
    }

    fn name(&self) -> (name: &'static str) {
        "DropTail"
    }

    fn reset_at(&mut self, now: u64) {
    }

    fn clone_box_at(&self, now: u64) -> (copy: Box<Self>) {
        Box::new(*self)
    }
}

/// First in, first out: refuses an arrival exactly when the queue is full.
#[derive(Debug, Clone, Copy, PartialEq, Eq, Structural)]
pub struct Fifo {
    pub buffer_size: usize,
}

impl Fifo {
    pub fn new(buffer_size: usize) -> (strategy: Self)
        ensures
            strategy.buffer_size == buffer_size,
    {
        Fifo { buffer_size }
    }
}

impl Strategy for Fifo {
    type State = Fifo;

    open spec fn state(&self) -> Fifo {
        *self
    }

    open spec fn inv(&self) -> bool {
        true
    }

    open spec fn enqueue_spec(
        pre: Fifo,
        packet: PacketView,
        queue_len: usize,
        now: u64,
        draw: u32,
    ) -> (Fifo, Action) {
        (pre, tail_drop(pre.buffer_size, queue_len))
    }

    open spec fn dequeue_spec(pre: Fifo, queue_len: usize, now: u64) -> Fifo {
        pre
    }

    open spec fn update_spec(pre: Fifo, queue_len: usize, avg_sojourn_us: u64, now: u64)
        -> Fifo {
        pre
    }

    open spec fn reset_spec(pre: Fifo, now: u64) -> Fifo {
        pre
    }

    open spec fn clone_spec(pre: Fifo, now: u64) -> Fifo {
        pre
    }

    open spec fn name_spec(pre: Fifo) -> Seq<char> {
        "FIFO"@
    }

    proof fn lemma_reset_forgets_arrival(
        pre: Self::State,
        packet: PacketView,
        queue_len: usize,
        now: u64,
        draw: u32,
        at: u64,
    ) {
    }

    proof fn lemma_reset_forgets_departure(pre: Self::State, queue_len: usize, now: u64, at: u64) {
    }

    proof fn lemma_reset_forgets_tick(
        pre: Self::State,
        queue_len: usize,
        avg_sojourn_us: u64,
        now: u64,
        at: u64,
    ) {
    }

    fn enqueue_at(&mut self, packet: &Packet, queue_len: usize, now: u64, draw: u32) -> (action:
        Action)
        ensures
            action == Action::Drop <==> queue_len >= old(self).buffer_size,
            action == Action::Accept <==> queue_len < old(self).buffer_size,
    {
        if queue_len >= self.buffer_size {
            Action::Drop
        } else {
            Action::Accept
        }
    }

    fn dequeue_at(&mut self, queue_len: usize, now: u64) {
    }

    fn update_at(&mut self, queue_len: usize, avg_sojourn_us: u64, now: u64) {
    }

    fn name(&self) -> (name: &'static str) {
        "FIFO"
    }

    fn reset_at(&mut self, now: u64) {
    }

    fn clone_box_at(&self, now: u64) -> (copy: Box<Self>) {
        Box::new(*self)
    }
}

} // verus!
