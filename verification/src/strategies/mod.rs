//! The policy interface and the built-in policies.

pub mod blue;
pub mod builtin;
pub mod codel;
pub mod fq_codel;
pub mod pie;
pub mod red;
pub mod registry;
pub mod static_strategies;
pub mod template;

pub use builtin::{BuiltinState, BuiltinStrategy, StrategyKind};
pub use registry::{StrategyBuilder, StrategyRegistry};

use crate::clock::now_micros;
use crate::network::packet::{Packet, PacketView};
use rand::Rng;
use vstd::prelude::*;

verus! {

/// Fate of an arriving packet.
#[derive(Debug, Clone, Copy, PartialEq, Eq, Structural)]
pub enum Action {
    Accept,
    Drop,
    Mark,
}

/// Probabilities are counted in parts per million: this is certainty.
pub const PROB_SCALE: u32 = 1_000_000;

/// Calls `rand::thread_rng()` and `Rng::gen_range(0..bound)` on it. The
/// contract claims only what `gen_range` documents of a half-open range:
/// the value lies in it. An empty range makes `gen_range` panic, so
/// `bound` is positive. (`thread_rng` panics where the operating system
/// gives it no seed; no argument of this function brings that about.)
#[verifier::external_body]
pub(crate) fn random_below(bound: u64) -> (draw: u64)
    requires
        bound > 0,
    ensures
        draw < bound,
{
    rand::thread_rng().gen_range(0..bound)
}

/// A random draw out of `PROB_SCALE`.
pub fn random_draw() -> (draw: u32)
    ensures
        draw < PROB_SCALE,
{
    random_below(PROB_SCALE as u64) as u32
}

/// An active queue management policy for one server.
///
/// A policy is a deterministic machine once the clock reading and the
/// random draw of each arrival are given: `enqueue_spec`, `dequeue_spec`,
/// `update_spec` and `reset_spec` say what it does to its abstract state.
pub trait Strategy: Sized {
    /// Abstract state of the policy.
    type State;

    /// The abstract state of this instance.
    spec fn state(&self) -> Self::State;

    /// What holds of every instance between calls.
    spec fn inv(&self) -> bool;

    /// State after, and fate of, a packet that arrives at `now` while
    /// `queue_len` packets wait, with `draw` as the random draw.
    spec fn enqueue_spec(
        pre: Self::State,
        packet: PacketView,
        queue_len: usize,
        now: u64,
        draw: u32,
    ) -> (Self::State, Action);

    /// State after one packet has left at `now`, `queue_len` remaining.
    spec fn dequeue_spec(pre: Self::State, queue_len: usize, now: u64) -> Self::State;

    /// State after the periodic tick at `now`.
    spec fn update_spec(
        pre: Self::State,
        queue_len: usize,
        avg_sojourn_us: u64,
        now: u64,
    ) -> Self::State;

    /// State after a reset at `now`: that of a fresh instance made at `now`.
    spec fn reset_spec(pre: Self::State, now: u64) -> Self::State;

    /// State of the separate instance that `clone_box` makes at `now`.
    spec fn clone_spec(pre: Self::State, now: u64) -> Self::State;

    /// The policy's name in reports.
    spec fn name_spec(pre: Self::State) -> Seq<char>;

    /// A reset does not see whether an arrival came before it.
    proof fn lemma_reset_forgets_arrival(
        pre: Self::State,
        packet: PacketView,
        queue_len: usize,
        now: u64,
        draw: u32,
        at: u64,
    )
        ensures
            Self::reset_spec(Self::enqueue_spec(pre, packet, queue_len, now, draw).0, at)
                == Self::reset_spec(pre, at),
    ;

    /// A reset does not see whether a departure came before it.
    proof fn lemma_reset_forgets_departure(pre: Self::State, queue_len: usize, now: u64, at: u64)
        ensures
            Self::reset_spec(Self::dequeue_spec(pre, queue_len, now), at) == Self::reset_spec(
                pre,
                at,
            ),
    ;

    /// A reset does not see whether a periodic tick came before it.
    proof fn lemma_reset_forgets_tick(
        pre: Self::State,
        queue_len: usize,
        avg_sojourn_us: u64,
        now: u64,
        at: u64,
    )
        ensures
            Self::reset_spec(Self::update_spec(pre, queue_len, avg_sojourn_us, now), at)
                == Self::reset_spec(pre, at),
    ;

    /// Decides the fate of a packet that arrives at `now` (microseconds)
    /// before it is inserted, with `draw` as the random draw: a policy
    /// that drops with a probability drops when the draw, taken out of
    /// `PROB_SCALE`, falls under it.
    fn enqueue_at(&mut self, packet: &Packet, queue_len: usize, now: u64, draw: u32) -> (action:
        Action)
        requires
            old(self).inv(),
        ensures
            final(self).inv(),
            (final(self).state(), action) == Self::enqueue_spec(
                old(self).state(),
                packet@,
                queue_len,
                now,
                draw,
            ),
    ;

    /// Notes that one packet has left at `now` (microseconds), leaving
    /// `queue_len` behind.
    fn dequeue_at(&mut self, queue_len: usize, now: u64)
        requires
            old(self).inv(),
        ensures
            final(self).inv(),
            final(self).state() == Self::dequeue_spec(old(self).state(), queue_len, now),
    ;

    /// The periodic tick at `now` (microseconds), with the mean of the
    /// recent sojourn times in microseconds.
    fn update_at(&mut self, queue_len: usize, avg_sojourn_us: u64, now: u64)
        requires
            old(self).inv(),
        ensures
            final(self).inv(),
            final(self).state() == Self::update_spec(
                old(self).state(),
                queue_len,
                avg_sojourn_us,
                now,
            ),
    ;

    /// Returns the policy to the state its constructor would give it at
    /// `now` (microseconds).
    fn reset_at(&mut self, now: u64)
        requires
            old(self).inv(),
        ensures
            final(self).inv(),
            final(self).state() == Self::reset_spec(old(self).state(), now),
    ;

    /// A separate instance of the same policy for another server, made at
    /// `now` (microseconds).
    fn clone_box_at(&self, now: u64) -> (copy: Box<Self>)
        requires
            self.inv(),
        ensures
            copy.inv(),
            copy.state() == Self::clone_spec(self.state(), now),
    ;

    /// The policy's name in reports.
    fn name(&self) -> (name: &'static str)
        ensures
            name@ == Self::name_spec(self.state()),
    ;

    /// Decides the fate of an arriving packet before it is inserted,
    /// while `queue_len` packets wait. The clock is read and the random
    /// draw is made here.
    fn on_enqueue(&mut self, packet: &Packet, queue_len: usize) -> (action: Action)
        requires
            old(self).inv(),
        ensures
            final(self).inv(),
            exists|now: u64, draw: u32|
                draw < PROB_SCALE && (final(self).state(), action) == #[trigger] Self::enqueue_spec(
                    old(self).state(),
                    packet@,
                    queue_len,
                    now,
                    draw,
                ),
    {
        let now = now_micros();
        let draw = random_draw();
        self.enqueue_at(packet, queue_len, now, draw)
    }

    /// Notes that one packet has left, leaving `queue_len` behind. The
    /// clock is read here.
    fn on_dequeue(&mut self, queue_len: usize)
        requires
            old(self).inv(),
        ensures
            final(self).inv(),
            exists|now: u64|
                final(self).state() == #[trigger] Self::dequeue_spec(
                    old(self).state(),
                    queue_len,
                    now,
                ),
    {
        let now = now_micros();
        self.dequeue_at(queue_len, now)
    }

    /// The periodic tick, with the mean of the recent sojourn times in
    /// microseconds. The clock is read here.
    fn update(&mut self, queue_len: usize, avg_sojourn_us: u64)
        requires
            old(self).inv(),
        ensures
            final(self).inv(),
            exists|now: u64|
                final(self).state() == #[trigger] Self::update_spec(
                    old(self).state(),
                    queue_len,
                    avg_sojourn_us,
                    now,
                ),
    {
        let now = now_micros();
        self.update_at(queue_len, avg_sojourn_us, now)
    }

    /// Returns the policy to the state its constructor would give it
    /// now. The clock is read here.
    fn reset(&mut self)
        requires
            old(self).inv(),
        ensures
            final(self).inv(),
            exists|now: u64|
                final(self).state() == #[trigger] Self::reset_spec(old(self).state(), now),
    {
        let now = now_micros();
        self.reset_at(now)
    }

    /// A separate instance of the same policy for another server. The
    /// clock is read here.
    fn clone_box(&self) -> (copy: Box<Self>)
        requires
            self.inv(),
        ensures
            copy.inv(),
            exists|now: u64| copy.state() == #[trigger] Self::clone_spec(self.state(), now),
    {
        let now = now_micros();
        self.clone_box_at(now)
    }
}

/// What can happen to a policy, with the clock reading and the random draw
/// that come with it.
pub enum Event {
    Arrival { packet: PacketView, queue_len: usize, now: u64, draw: u32 },
    Departure { queue_len: usize, now: u64 },
    Tick { queue_len: usize, avg_sojourn_us: u64, now: u64 },
    Reset { now: u64 },
}

/// The state after one event, and the decision if the event was an
/// arrival.
pub open spec fn step<S: Strategy>(pre: S::State, event: Event) -> (S::State, Option<Action>) {
    match event {
        Event::Arrival { packet, queue_len, now, draw } => {
            let (post, action) = S::enqueue_spec(pre, packet, queue_len, now, draw);
            (post, Some(action))
        },
        Event::Departure { queue_len, now } => (S::dequeue_spec(pre, queue_len, now), None),
        Event::Tick { queue_len, avg_sojourn_us, now } => (
            S::update_spec(pre, queue_len, avg_sojourn_us, now),
            None,
        ),
        Event::Reset { now } => (S::reset_spec(pre, now), None),
    }
}

/// The state after a sequence of events, and the decisions made on its
/// arrivals, in order.
pub open spec fn run<S: Strategy>(pre: S::State, events: Seq<Event>) -> (S::State, Seq<Action>)
    decreases events.len(),
{
    if events.len() == 0 {
        (pre, Seq::empty())
    } else {
        let (mid, decisions) = run::<S>(pre, events.drop_last());
        let (post, decision) = step::<S>(mid, events.last());
        (
            post,
            match decision {
                Some(action) => decisions.push(action),
                None => decisions,
            },
        )
    }
}

/// Whether a sequence of events holds no reset.
pub open spec fn no_reset(events: Seq<Event>) -> bool {
    forall|i: int| 0 <= i < events.len() ==> !(#[trigger] events[i] is Reset)
}

/// A reset erases the past: whatever a policy has been through since it
/// was in state `pre`, a reset at `at` leaves it where a reset of `pre` at
/// `at` would.
pub proof fn lemma_reset_erases_history<S: Strategy>(pre: S::State, history: Seq<Event>, at: u64)
    requires
        no_reset(history),
    ensures
        S::reset_spec(run::<S>(pre, history).0, at) == S::reset_spec(pre, at),
    decreases history.len(),
{
    if history.len() > 0 {
        let earlier = history.drop_last();
        assert(no_reset(earlier)) by {
            assert forall|i: int| 0 <= i < earlier.len() implies !(#[trigger] earlier[i]
                is Reset) by {
                assert(earlier[i] == history[i]);
            }
        }
        lemma_reset_erases_history::<S>(pre, earlier, at);
        let mid = run::<S>(pre, earlier).0;
        assert(!(history[history.len() - 1] is Reset));
        match history.last() {
            Event::Arrival { packet, queue_len, now, draw } => {
                S::lemma_reset_forgets_arrival(mid, packet, queue_len, now, draw, at);
            },
            Event::Departure { queue_len, now } => {
                S::lemma_reset_forgets_departure(mid, queue_len, now, at);
            },
            Event::Tick { queue_len, avg_sojourn_us, now } => {
                S::lemma_reset_forgets_tick(mid, queue_len, avg_sojourn_us, now, at);
            },
            Event::Reset { now } => {},
        }
    }
}

/// After a reset the same inputs give the same decisions: a policy that
/// is reset at `at` after any history and then fed `events` decides, and
/// ends, as one that is reset at `at` straight away and fed `events`.
pub proof fn lemma_reset_replays<S: Strategy>(
    pre: S::State,
    history: Seq<Event>,
    at: u64,
    events: Seq<Event>,
)
    requires
        no_reset(history),
    ensures
        run::<S>(S::reset_spec(run::<S>(pre, history).0, at), events) == run::<S>(
            S::reset_spec(pre, at),
            events,
        ),
{
    lemma_reset_erases_history::<S>(pre, history, at);
}

} // verus!
