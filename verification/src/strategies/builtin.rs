//! The built-in policies as one type, so that a server can hold whichever
//! a name selects.

use crate::clock::now_micros;
use crate::network::packet::{Packet, PacketView};
use crate::strategies::blue::Blue;
use crate::strategies::codel::{CoDel, CoDelState};
use crate::strategies::fq_codel::{FqCoDel, FqCoDelState};
use crate::strategies::pie::Pie;
use crate::strategies::red::{AdaptiveRed, Red};
use crate::strategies::static_strategies::{DropTail, Fifo};
use crate::strategies::{Action, Strategy};
use vstd::prelude::*;

verus! {

/// The built-in policies, by kind.
#[derive(Debug, Clone, Copy, PartialEq, Eq, Structural)]
pub enum StrategyKind {
    DropTail,
    Fifo,
    Red,
    AdaptiveRed,
    Blue,
    CoDel,
    Pie,
    FqCoDel,
}

/// An instance of one of the built-in policies.
#[derive(Debug)]
pub enum BuiltinStrategy {
    DropTail(DropTail),
    Fifo(Fifo),
    Red(Red),
    AdaptiveRed(AdaptiveRed),
    Blue(Blue),
    CoDel(CoDel),
    Pie(Pie),
    FqCoDel(FqCoDel),
}

/// Abstract state of an instance of one of the built-in policies.
pub enum BuiltinState {
    DropTail(DropTail),
    Fifo(Fifo),
    Red(Red),
    AdaptiveRed(AdaptiveRed),
    Blue(Blue),
    CoDel(CoDelState),
    Pie(Pie),
    FqCoDel(FqCoDelState),
}

/// The kind of policy that a state belongs to.
pub open spec fn kind_of(state: BuiltinState) -> StrategyKind {
    match state {
        BuiltinState::DropTail(_) => StrategyKind::DropTail,
        BuiltinState::Fifo(_) => StrategyKind::Fifo,
        BuiltinState::Red(_) => StrategyKind::Red,
        BuiltinState::AdaptiveRed(_) => StrategyKind::AdaptiveRed,
        BuiltinState::Blue(_) => StrategyKind::Blue,
        BuiltinState::CoDel(_) => StrategyKind::CoDel,
        BuiltinState::Pie(_) => StrategyKind::Pie,
        BuiltinState::FqCoDel(_) => StrategyKind::FqCoDel,
    }
}

/// The name of a kind of policy in reports.
pub open spec fn kind_label(kind: StrategyKind) -> Seq<char> {
    match kind {
        StrategyKind::DropTail => "DropTail"@,
        StrategyKind::Fifo => "FIFO"@,
        StrategyKind::Red => "RED"@,
        StrategyKind::AdaptiveRed => "Adaptive-RED"@,
        StrategyKind::Blue => "BLUE"@,
        StrategyKind::CoDel => "CoDel"@,
        StrategyKind::Pie => "PIE"@,
        StrategyKind::FqCoDel => "FQ-CoDel"@,
    }
}

/// The state of a fresh instance of `kind` for a buffer of `buffer_size`
/// packets, made at `now`. CoDel keeps its own queue of that size; PIE
/// assumes a link of 100 Mbps.
pub open spec fn builtin_initial(kind: StrategyKind, buffer_size: usize, now: u64) -> BuiltinState {
    match kind {
        StrategyKind::DropTail => BuiltinState::DropTail(DropTail { buffer_size }),
        StrategyKind::Fifo => BuiltinState::Fifo(Fifo { buffer_size }),
        StrategyKind::Red => BuiltinState::Red(crate::strategies::red::red_initial(buffer_size)),
        StrategyKind::AdaptiveRed => BuiltinState::AdaptiveRed(
            crate::strategies::red::ared_initial(buffer_size, now),
        ),
        StrategyKind::Blue => BuiltinState::Blue(
            crate::strategies::blue::blue_initial(buffer_size, now),
        ),
        StrategyKind::CoDel => BuiltinState::CoDel(
            crate::strategies::codel::codel_initial(buffer_size),
        ),
        StrategyKind::Pie => BuiltinState::Pie(
            crate::strategies::pie::pie_initial(100_000_000, now),
        ),
        StrategyKind::FqCoDel => BuiltinState::FqCoDel(
            crate::strategies::fq_codel::fq_initial(buffer_size),
        ),
    }
}

impl BuiltinStrategy {
    /// A fresh instance of `kind` for a buffer of `buffer_size` packets,
    /// made now. The clock is read here.
    pub fn create(kind: StrategyKind, buffer_size: usize) -> (strategy: Self)
        ensures
            strategy.inv(),
            exists|now: u64|
                strategy.state() == #[trigger] builtin_initial(kind, buffer_size, now),
    {
        BuiltinStrategy::create_at(kind, buffer_size, now_micros())
    }

    /// A fresh instance of `kind` for a buffer of `buffer_size` packets,
    /// made at `now` (microseconds).
    pub fn create_at(kind: StrategyKind, buffer_size: usize, now: u64) -> (strategy: Self)
        ensures
            strategy.inv(),
            strategy.state() == builtin_initial(kind, buffer_size, now),
    {
        match kind {
            StrategyKind::DropTail => BuiltinStrategy::DropTail(DropTail::new(buffer_size)),
            StrategyKind::Fifo => BuiltinStrategy::Fifo(Fifo::new(buffer_size)),
            StrategyKind::Red => BuiltinStrategy::Red(Red::new(buffer_size)),
            StrategyKind::AdaptiveRed => BuiltinStrategy::AdaptiveRed(
                AdaptiveRed::new_at(buffer_size, now),
            ),
            StrategyKind::Blue => BuiltinStrategy::Blue(Blue::new_at(buffer_size, now)),
            StrategyKind::CoDel => BuiltinStrategy::CoDel(CoDel::new(buffer_size)),
            StrategyKind::Pie => BuiltinStrategy::Pie(Pie::new_at(now)),
            StrategyKind::FqCoDel => BuiltinStrategy::FqCoDel(FqCoDel::new(buffer_size)),
        }
    }

    /// The kind of policy this is.
    pub fn kind(&self) -> (kind: StrategyKind)
        ensures
            kind == kind_of(self.state()),
    {
        match self {
            BuiltinStrategy::DropTail(_) => StrategyKind::DropTail,
            BuiltinStrategy::Fifo(_) => StrategyKind::Fifo,
            BuiltinStrategy::Red(_) => StrategyKind::Red,
            BuiltinStrategy::AdaptiveRed(_) => StrategyKind::AdaptiveRed,
            BuiltinStrategy::Blue(_) => StrategyKind::Blue,
            BuiltinStrategy::CoDel(_) => StrategyKind::CoDel,
            BuiltinStrategy::Pie(_) => StrategyKind::Pie,
            BuiltinStrategy::FqCoDel(_) => StrategyKind::FqCoDel,
        }
    }
}

impl Strategy for BuiltinStrategy {
    type State = BuiltinState;

    open spec fn state(&self) -> BuiltinState {
        match self {
            BuiltinStrategy::DropTail(s) => BuiltinState::DropTail(s.state()),
            BuiltinStrategy::Fifo(s) => BuiltinState::Fifo(s.state()),
            BuiltinStrategy::Red(s) => BuiltinState::Red(s.state()),
            BuiltinStrategy::AdaptiveRed(s) => BuiltinState::AdaptiveRed(s.state()),
            BuiltinStrategy::Blue(s) => BuiltinState::Blue(s.state()),
            BuiltinStrategy::CoDel(s) => BuiltinState::CoDel(s.state()),
            BuiltinStrategy::Pie(s) => BuiltinState::Pie(s.state()),
            BuiltinStrategy::FqCoDel(s) => BuiltinState::FqCoDel(s.state()),
        }
    }

    open spec fn inv(&self) -> bool {
        match self {
            BuiltinStrategy::DropTail(s) => s.inv(),
            BuiltinStrategy::Fifo(s) => s.inv(),
            BuiltinStrategy::Red(s) => s.inv(),
            BuiltinStrategy::AdaptiveRed(s) => s.inv(),
            BuiltinStrategy::Blue(s) => s.inv(),
            BuiltinStrategy::CoDel(s) => s.inv(),
            BuiltinStrategy::Pie(s) => s.inv(),
            BuiltinStrategy::FqCoDel(s) => s.inv(),
        }
    }

    open spec fn enqueue_spec(
        pre: BuiltinState,
        packet: PacketView,
        queue_len: usize,
        now: u64,
        draw: u32,
    ) -> (BuiltinState, Action) {
        match pre {
            BuiltinState::DropTail(s) => {
                let (post, action) = DropTail::enqueue_spec(s, packet, queue_len, now, draw);
                (BuiltinState::DropTail(post), action)
            },
            BuiltinState::Fifo(s) => {
                let (post, action) = Fifo::enqueue_spec(s, packet, queue_len, now, draw);
                (BuiltinState::Fifo(post), action)
            },
            BuiltinState::Red(s) => {
                let (post, action) = Red::enqueue_spec(s, packet, queue_len, now, draw);
                (BuiltinState::Red(post), action)
            },
            BuiltinState::AdaptiveRed(s) => {
                let (post, action) = AdaptiveRed::enqueue_spec(s, packet, queue_len, now, draw);
                (BuiltinState::AdaptiveRed(post), action)
            },
            BuiltinState::Blue(s) => {
                let (post, action) = Blue::enqueue_spec(s, packet, queue_len, now, draw);
                (BuiltinState::Blue(post), action)
            },
            BuiltinState::CoDel(s) => {
                let (post, action) = CoDel::enqueue_spec(s, packet, queue_len, now, draw);
                (BuiltinState::CoDel(post), action)
            },
            BuiltinState::Pie(s) => {
                let (post, action) = Pie::enqueue_spec(s, packet, queue_len, now, draw);
                (BuiltinState::Pie(post), action)
            },
            BuiltinState::FqCoDel(s) => {
                let (post, action) = FqCoDel::enqueue_spec(s, packet, queue_len, now, draw);
                (BuiltinState::FqCoDel(post), action)
            },
        }
    }

    open spec fn dequeue_spec(pre: BuiltinState, queue_len: usize, now: u64) -> BuiltinState {
        match pre {
            BuiltinState::DropTail(s) => BuiltinState::DropTail(DropTail::dequeue_spec(s, queue_len, now)),
            BuiltinState::Fifo(s) => BuiltinState::Fifo(Fifo::dequeue_spec(s, queue_len, now)),
            BuiltinState::Red(s) => BuiltinState::Red(Red::dequeue_spec(s, queue_len, now)),
            BuiltinState::AdaptiveRed(s) => BuiltinState::AdaptiveRed(AdaptiveRed::dequeue_spec(s, queue_len, now)),
            BuiltinState::Blue(s) => BuiltinState::Blue(Blue::dequeue_spec(s, queue_len, now)),
            BuiltinState::CoDel(s) => BuiltinState::CoDel(CoDel::dequeue_spec(s, queue_len, now)),
            BuiltinState::Pie(s) => BuiltinState::Pie(Pie::dequeue_spec(s, queue_len, now)),
            BuiltinState::FqCoDel(s) => BuiltinState::FqCoDel(FqCoDel::dequeue_spec(s, queue_len, now)),
        }
    }

    open spec fn update_spec(pre: BuiltinState, queue_len: usize, avg_sojourn_us: u64, now: u64)
        -> BuiltinState {
        match pre {
            BuiltinState::DropTail(s) => BuiltinState::DropTail(
                DropTail::update_spec(s, queue_len, avg_sojourn_us, now),
            ),
            BuiltinState::Fifo(s) => BuiltinState::Fifo(
                Fifo::update_spec(s, queue_len, avg_sojourn_us, now),
            ),
            BuiltinState::Red(s) => BuiltinState::Red(
                Red::update_spec(s, queue_len, avg_sojourn_us, now),
            ),
            BuiltinState::AdaptiveRed(s) => BuiltinState::AdaptiveRed(
                AdaptiveRed::update_spec(s, queue_len, avg_sojourn_us, now),
            ),
            BuiltinState::Blue(s) => BuiltinState::Blue(
                Blue::update_spec(s, queue_len, avg_sojourn_us, now),
            ),
            BuiltinState::CoDel(s) => BuiltinState::CoDel(
                CoDel::update_spec(s, queue_len, avg_sojourn_us, now),
            ),
            BuiltinState::Pie(s) => BuiltinState::Pie(
                Pie::update_spec(s, queue_len, avg_sojourn_us, now),
            ),
            BuiltinState::FqCoDel(s) => BuiltinState::FqCoDel(
                FqCoDel::update_spec(s, queue_len, avg_sojourn_us, now),
            ),
        }
    }

    open spec fn reset_spec(pre: BuiltinState, now: u64) -> BuiltinState {
        match pre {
            BuiltinState::DropTail(s) => BuiltinState::DropTail(DropTail::reset_spec(s, now)),
            BuiltinState::Fifo(s) => BuiltinState::Fifo(Fifo::reset_spec(s, now)),
            BuiltinState::Red(s) => BuiltinState::Red(Red::reset_spec(s, now)),
            BuiltinState::AdaptiveRed(s) => BuiltinState::AdaptiveRed(AdaptiveRed::reset_spec(s, now)),
            BuiltinState::Blue(s) => BuiltinState::Blue(Blue::reset_spec(s, now)),
            BuiltinState::CoDel(s) => BuiltinState::CoDel(CoDel::reset_spec(s, now)),
            BuiltinState::Pie(s) => BuiltinState::Pie(Pie::reset_spec(s, now)),
            BuiltinState::FqCoDel(s) => BuiltinState::FqCoDel(FqCoDel::reset_spec(s, now)),
        }
    }

    open spec fn clone_spec(pre: BuiltinState, now: u64) -> BuiltinState {
        match pre {
            BuiltinState::DropTail(s) => BuiltinState::DropTail(DropTail::clone_spec(s, now)),
            BuiltinState::Fifo(s) => BuiltinState::Fifo(Fifo::clone_spec(s, now)),
            BuiltinState::Red(s) => BuiltinState::Red(Red::clone_spec(s, now)),
            BuiltinState::AdaptiveRed(s) => BuiltinState::AdaptiveRed(AdaptiveRed::clone_spec(s, now)),
            BuiltinState::Blue(s) => BuiltinState::Blue(Blue::clone_spec(s, now)),
            BuiltinState::CoDel(s) => BuiltinState::CoDel(CoDel::clone_spec(s, now)),
            BuiltinState::Pie(s) => BuiltinState::Pie(Pie::clone_spec(s, now)),
            BuiltinState::FqCoDel(s) => BuiltinState::FqCoDel(FqCoDel::clone_spec(s, now)),
        }
    }

    open spec fn name_spec(pre: BuiltinState) -> Seq<char> {
        kind_label(kind_of(pre))
    }

    proof fn lemma_reset_forgets_arrival(
        pre: Self::State,
        packet: PacketView,
        queue_len: usize,
        now: u64,
        draw: u32,
        at: u64,
    ) {
        match pre {
            BuiltinState::DropTail(s) => DropTail::lemma_reset_forgets_arrival(
                s,
                packet,
                queue_len,
                now,
                draw,
                at,
            ),
            BuiltinState::Fifo(s) => Fifo::lemma_reset_forgets_arrival(
                s,
                packet,
                queue_len,
                now,
                draw,
                at,
            ),
            BuiltinState::Red(s) => Red::lemma_reset_forgets_arrival(
                s,
                packet,
                queue_len,
                now,
                draw,
                at,
            ),
            BuiltinState::AdaptiveRed(s) => AdaptiveRed::lemma_reset_forgets_arrival(
                s,
                packet,
                queue_len,
                now,
                draw,
                at,
            ),
            BuiltinState::Blue(s) => Blue::lemma_reset_forgets_arrival(
                s,
                packet,
                queue_len,
                now,
                draw,
                at,
            ),
            BuiltinState::CoDel(s) => CoDel::lemma_reset_forgets_arrival(
                s,
                packet,
                queue_len,
                now,
                draw,
                at,
            ),
            BuiltinState::Pie(s) => Pie::lemma_reset_forgets_arrival(
                s,
                packet,
                queue_len,
                now,
                draw,
                at,
            ),
            BuiltinState::FqCoDel(s) => FqCoDel::lemma_reset_forgets_arrival(
                s,
                packet,
                queue_len,
                now,
                draw,
                at,
            ),
        }
    }

    proof fn lemma_reset_forgets_departure(pre: Self::State, queue_len: usize, now: u64, at: u64) {
        match pre {
            BuiltinState::DropTail(s) => DropTail::lemma_reset_forgets_departure(s, queue_len, now, at),
            BuiltinState::Fifo(s) => Fifo::lemma_reset_forgets_departure(s, queue_len, now, at),
            BuiltinState::Red(s) => Red::lemma_reset_forgets_departure(s, queue_len, now, at),
            BuiltinState::AdaptiveRed(s) => AdaptiveRed::lemma_reset_forgets_departure(s, queue_len, now, at),
            BuiltinState::Blue(s) => Blue::lemma_reset_forgets_departure(s, queue_len, now, at),
            BuiltinState::CoDel(s) => CoDel::lemma_reset_forgets_departure(s, queue_len, now, at),
            BuiltinState::Pie(s) => Pie::lemma_reset_forgets_departure(s, queue_len, now, at),
            BuiltinState::FqCoDel(s) => FqCoDel::lemma_reset_forgets_departure(s, queue_len, now, at),
        }
    }

    proof fn lemma_reset_forgets_tick(
        pre: Self::State,
        queue_len: usize,
        avg_sojourn_us: u64,
        now: u64,
        at: u64,
    ) {
        match pre {
            BuiltinState::DropTail(s) => DropTail::lemma_reset_forgets_tick(
                s,
                queue_len,
                avg_sojourn_us,
                now,
                at,
            ),
            BuiltinState::Fifo(s) => Fifo::lemma_reset_forgets_tick(
                s,
                queue_len,
                avg_sojourn_us,
                now,
                at,
            ),
            BuiltinState::Red(s) => Red::lemma_reset_forgets_tick(
                s,
                queue_len,
                avg_sojourn_us,
                now,
                at,
            ),
            BuiltinState::AdaptiveRed(s) => AdaptiveRed::lemma_reset_forgets_tick(
                s,
                queue_len,
                avg_sojourn_us,
                now,
                at,
            ),
            BuiltinState::Blue(s) => Blue::lemma_reset_forgets_tick(
                s,
                queue_len,
                avg_sojourn_us,
                now,
                at,
            ),
            BuiltinState::CoDel(s) => CoDel::lemma_reset_forgets_tick(
                s,
                queue_len,
                avg_sojourn_us,
                now,
                at,
            ),
            BuiltinState::Pie(s) => Pie::lemma_reset_forgets_tick(
                s,
                queue_len,
                avg_sojourn_us,
                now,
                at,
            ),
            BuiltinState::FqCoDel(s) => FqCoDel::lemma_reset_forgets_tick(
                s,
                queue_len,
                avg_sojourn_us,
                now,
                at,
            ),
        }
    }

    fn enqueue_at(&mut self, packet: &Packet, queue_len: usize, now: u64, draw: u32) -> (action:
        Action) {
        match self {
            BuiltinStrategy::DropTail(s) => s.enqueue_at(packet, queue_len, now, draw),
            BuiltinStrategy::Fifo(s) => s.enqueue_at(packet, queue_len, now, draw),
            BuiltinStrategy::Red(s) => s.enqueue_at(packet, queue_len, now, draw),
            BuiltinStrategy::AdaptiveRed(s) => s.enqueue_at(packet, queue_len, now, draw),
            BuiltinStrategy::Blue(s) => s.enqueue_at(packet, queue_len, now, draw),
            BuiltinStrategy::CoDel(s) => s.enqueue_at(packet, queue_len, now, draw),
            BuiltinStrategy::Pie(s) => s.enqueue_at(packet, queue_len, now, draw),
            BuiltinStrategy::FqCoDel(s) => s.enqueue_at(packet, queue_len, now, draw),
        }
    }

    fn dequeue_at(&mut self, queue_len: usize, now: u64) {
        match self {
            BuiltinStrategy::DropTail(s) => s.dequeue_at(queue_len, now),
            BuiltinStrategy::Fifo(s) => s.dequeue_at(queue_len, now),
            BuiltinStrategy::Red(s) => s.dequeue_at(queue_len, now),
            BuiltinStrategy::AdaptiveRed(s) => s.dequeue_at(queue_len, now),
            BuiltinStrategy::Blue(s) => s.dequeue_at(queue_len, now),
            BuiltinStrategy::CoDel(s) => s.dequeue_at(queue_len, now),
            BuiltinStrategy::Pie(s) => s.dequeue_at(queue_len, now),
            BuiltinStrategy::FqCoDel(s) => s.dequeue_at(queue_len, now),
        }
    }

    fn update_at(&mut self, queue_len: usize, avg_sojourn_us: u64, now: u64) {
        match self {
            BuiltinStrategy::DropTail(s) => s.update_at(queue_len, avg_sojourn_us, now),
            BuiltinStrategy::Fifo(s) => s.update_at(queue_len, avg_sojourn_us, now),
            BuiltinStrategy::Red(s) => s.update_at(queue_len, avg_sojourn_us, now),
            BuiltinStrategy::AdaptiveRed(s) => s.update_at(queue_len, avg_sojourn_us, now),
            BuiltinStrategy::Blue(s) => s.update_at(queue_len, avg_sojourn_us, now),
            BuiltinStrategy::CoDel(s) => s.update_at(queue_len, avg_sojourn_us, now),
            BuiltinStrategy::Pie(s) => s.update_at(queue_len, avg_sojourn_us, now),
            BuiltinStrategy::FqCoDel(s) => s.update_at(queue_len, avg_sojourn_us, now),
        }
    }

    fn name(&self) -> (name: &'static str) {
        match self {
            BuiltinStrategy::DropTail(s) => s.name(),
            BuiltinStrategy::Fifo(s) => s.name(),
            BuiltinStrategy::Red(s) => s.name(),
            BuiltinStrategy::AdaptiveRed(s) => s.name(),
            BuiltinStrategy::Blue(s) => s.name(),
            BuiltinStrategy::CoDel(s) => s.name(),
            BuiltinStrategy::Pie(s) => s.name(),
            BuiltinStrategy::FqCoDel(s) => s.name(),
        }
    }

    fn reset_at(&mut self, now: u64) {
        match self {
            BuiltinStrategy::DropTail(s) => s.reset_at(now),
            BuiltinStrategy::Fifo(s) => s.reset_at(now),
            BuiltinStrategy::Red(s) => s.reset_at(now),
            BuiltinStrategy::AdaptiveRed(s) => s.reset_at(now),
            BuiltinStrategy::Blue(s) => s.reset_at(now),
            BuiltinStrategy::CoDel(s) => s.reset_at(now),
            BuiltinStrategy::Pie(s) => s.reset_at(now),
            BuiltinStrategy::FqCoDel(s) => s.reset_at(now),
        }
    }

    fn clone_box_at(&self, now: u64) -> (copy: Box<Self>) {
        match self {
            BuiltinStrategy::DropTail(s) => Box::new(BuiltinStrategy::DropTail(*s.clone_box_at(now))),
            BuiltinStrategy::Fifo(s) => Box::new(BuiltinStrategy::Fifo(*s.clone_box_at(now))),
            BuiltinStrategy::Red(s) => Box::new(BuiltinStrategy::Red(*s.clone_box_at(now))),
            BuiltinStrategy::AdaptiveRed(s) => Box::new(BuiltinStrategy::AdaptiveRed(*s.clone_box_at(now))),
            BuiltinStrategy::Blue(s) => Box::new(BuiltinStrategy::Blue(*s.clone_box_at(now))),
            BuiltinStrategy::CoDel(s) => Box::new(BuiltinStrategy::CoDel(*s.clone_box_at(now))),
            BuiltinStrategy::Pie(s) => Box::new(BuiltinStrategy::Pie(*s.clone_box_at(now))),
            BuiltinStrategy::FqCoDel(s) => Box::new(BuiltinStrategy::FqCoDel(*s.clone_box_at(now))),
        }
    }
}

} // verus!
