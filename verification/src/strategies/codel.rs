//! CoDel: drops from the head of the queue while the head-of-line sojourn
//! time stays above a target for longer than an interval.

use crate::network::packet::{Packet, PacketView};
use crate::strategies::{run, step, Action, Event, Strategy};
use std::collections::VecDeque;
use vstd::prelude::*;

verus! {

/// Sojourn time that the head of the queue may reach unpunished, in
/// microseconds (5 ms).
pub const TARGET_US: u64 = 5_000;

/// Time the sojourn may stay above the target before drops begin, in
/// microseconds (100 ms).
pub const INTERVAL_US: u64 = 100_000;

/// `r` is the integer part of the square root of `n`.
pub open spec fn is_floor_sqrt(n: int, r: int) -> bool {
    0 <= r && r * r <= n < (r + 1) * (r + 1)
}

/// `r` is the integer part of `INTERVAL_US / sqrt(max(count, 1))`.
pub open spec fn is_control_interval(count: u32, r: int) -> bool {
    let c: int = if count == 0 { 1 } else { count as int };
    0 <= r && r * r * c <= INTERVAL_US * INTERVAL_US < (r + 1) * (r + 1) * c
}

/// Time to the next drop once `count` drops have been made: the integer
/// part of `INTERVAL_US / sqrt(max(count, 1))`.
pub open spec fn control_interval(count: u32) -> u64 {
    choose|r: u64| is_control_interval(count, r as int)
}

/// At most one number is the control interval of a count.
pub proof fn lemma_control_interval_unique(count: u32, r1: int, r2: int)
    requires
        is_control_interval(count, r1),
        is_control_interval(count, r2),
    ensures
        r1 == r2,
{
    let c: int = if count == 0 { 1 } else { count as int };
    let sq: int = INTERVAL_US * INTERVAL_US;
    if r1 < r2 {
        assert((r1 + 1) * (r1 + 1) * c <= r2 * r2 * c) by (nonlinear_arith)
            requires
                0 <= r1 + 1 <= r2,
                c >= 1,
        ;
    } else if r2 < r1 {
        assert((r2 + 1) * (r2 + 1) * c <= r1 * r1 * c) by (nonlinear_arith)
            requires
                0 <= r2 + 1 <= r1,
                c >= 1,
        ;
    }
}

/// The integer part of the square root of `n`.
pub fn isqrt(n: u64) -> (r: u64)
    ensures
        is_floor_sqrt(n as int, r as int),
        r < 0x1_0000_0000,
{
    let mut lo: u64 = 0;
    let mut hi: u64 = 0x1_0000_0000;
    assert(0x1_0000_0000int * 0x1_0000_0000int > n);
    while hi - lo > 1
        invariant
            lo < hi <= 0x1_0000_0000,
            lo * lo <= n < hi * hi,
        decreases hi - lo,
    {
        let mid: u64 = lo + (hi - lo) / 2;
        assert(mid * mid <= 0xffff_ffff * 0xffff_ffff) by (nonlinear_arith)
            requires
                0 <= mid <= 0xffff_ffff,
        ;
        if mid * mid <= n {
            lo = mid;
        } else {
            hi = mid;
        }
    }
    lo
}

/// Time to the next drop once `count` drops have been made, in
/// microseconds.
pub fn control_law_for(count: u32) -> (r: u64)
    ensures
        r == control_interval(count),
        is_control_interval(count, r as int),
        1 <= r <= INTERVAL_US,
{
    let c: u64 = if count == 0 { 1 } else { count as u64 };
    let square: u64 = INTERVAL_US * INTERVAL_US;
    let q: u64 = square / c;
    let r: u64 = isqrt(q);
    proof {
        let ri = r as int;
        let ci = c as int;
        let qi = q as int;
        let si = square as int;
        assert(qi * ci <= si < (qi + 1) * ci) by (nonlinear_arith)
            requires
                ci >= 1,
                si >= 0,
                qi == si / ci,
        ;
        assert(ri * ri * ci <= qi * ci) by (nonlinear_arith)
            requires
                ri * ri <= qi,
                ci >= 1,
        ;
        assert((qi + 1) * ci <= (ri + 1) * (ri + 1) * ci) by (nonlinear_arith)
            requires
                qi + 1 <= (ri + 1) * (ri + 1),
                ci >= 1,
        ;
        assert(is_control_interval(count, ri));
        // between 1 and the interval itself
        if ri > INTERVAL_US {
            assert(ri * ri * ci > si) by (nonlinear_arith)
                requires
                    ri > 100_000,
                    ci >= 1,
                    si == 10_000_000_000,
            ;
        }
        if ri == 0 {
            assert(ci <= 0xffff_ffff);
            assert((ri + 1) * (ri + 1) * ci == ci) by (nonlinear_arith)
                requires
                    ri == 0,
            ;
        }
        let w = control_interval(count);
        assert(is_control_interval(count, w as int));
        lemma_control_interval_unique(count, ri, w as int);
    }
    r
}

/// A queued packet with the time of its arrival, as plain values.
pub struct QueuedView {
    pub packet: PacketView,
    pub enqueue_time: u64,
}

/// A packet in CoDel's queue, tagged with the time of its arrival.
#[derive(Debug)]
pub struct QueuedPacket {
    pub packet: Packet,
    pub enqueue_time: u64,
}

impl View for QueuedPacket {
    type V = QueuedView;

    open spec fn view(&self) -> QueuedView {
        QueuedView { packet: self.packet@, enqueue_time: self.enqueue_time }
    }
}

/// Abstract state of a CoDel instance.
pub struct CoDelState {
    pub buffer_size: usize,
    /// When the sojourn time was first seen above the target.
    pub first_above_time: Option<u64>,
    /// When the next drop is due while dropping.
    pub drop_next: u64,
    /// Drops made since dropping began.
    pub count: u32,
    pub dropping: bool,
    /// The queue, head first.
    pub queue: Seq<QueuedView>,
}

/// The state a constructor gives.
pub open spec fn codel_initial(buffer_size: usize) -> CoDelState {
    CoDelState {
        buffer_size,
        first_above_time: None,
        drop_next: 0,
        count: 0,
        dropping: false,
        queue: Seq::empty(),
    }
}

/// `a - b`, or zero where `b` is the later instant.
pub open spec fn elapsed_since(now: u64, earlier: u64) -> u64 {
    if now >= earlier {
        (now - earlier) as u64
    } else {
        0
    }
}

/// `a + b`, capped at the largest instant.
pub open spec fn instant_after(now: u64, delay: u64) -> u64 {
    if now + delay > u64::MAX {
        u64::MAX
    } else {
        (now + delay) as u64
    }
}

/// `count + 1`, capped at the largest count.
pub open spec fn count_after(count: u32) -> u32 {
    if count == u32::MAX {
        u32::MAX
    } else {
        (count + 1) as u32
    }
}

/// An arrival: refused when the queue is full, else appended with its
/// arrival time.
pub open spec fn codel_enqueue(pre: CoDelState, packet: PacketView, now: u64) -> (
    CoDelState,
    Action,
) {
    if pre.queue.len() >= pre.buffer_size {
        (pre, Action::Drop)
    } else {
        (
            CoDelState {
                queue: pre.queue.push(QueuedView { packet, enqueue_time: now }),
                ..pre
            },
            Action::Accept,
        )
    }
}

/// Sojourn time of the head of the queue at `now`.
pub open spec fn head_sojourn(pre: CoDelState, now: u64) -> u64
    recommends
        pre.queue.len() > 0,
{
    elapsed_since(now, pre.queue[0].enqueue_time)
}

/// A departure at `now`: the head leaves, and while the head's sojourn
/// time has been above the target for an interval, heads are dropped at
/// the pace of the control law before one is let through.
pub open spec fn codel_dequeue(pre: CoDelState, now: u64) -> CoDelState
    decreases pre.queue.len(),
{
    if pre.queue.len() == 0 {
        CoDelState { dropping: false, first_above_time: None, ..pre }
    } else {
        let rest = pre.queue.subrange(1, pre.queue.len() as int);
        if head_sojourn(pre, now) < TARGET_US {
            CoDelState { first_above_time: None, dropping: false, queue: rest, ..pre }
        } else if pre.first_above_time is None {
            CoDelState { first_above_time: Some(now), queue: rest, ..pre }
        } else if elapsed_since(now, pre.first_above_time->0) < INTERVAL_US {
            CoDelState { queue: rest, ..pre }
        } else if !pre.dropping {
            codel_dequeue(
                CoDelState { dropping: true, count: 1, drop_next: now, queue: rest, ..pre },
                now,
            )
        } else if now >= pre.drop_next {
            let count = count_after(pre.count);
            codel_dequeue(
                CoDelState {
                    count,
                    drop_next: instant_after(now, control_interval(count)),
                    queue: rest,
                    ..pre
                },
                now,
            )
        } else {
            CoDelState { queue: rest, ..pre }
        }
    }
}

/// A departure leaves the buffer size alone and takes packets from the
/// head only: what remains is the tail of the queue.
pub proof fn lemma_codel_dequeue_shape(pre: CoDelState, now: u64)
    ensures
        codel_dequeue(pre, now).buffer_size == pre.buffer_size,
        codel_dequeue(pre, now).queue.len() <= pre.queue.len(),
        pre.queue.len() > 0 ==> codel_dequeue(pre, now).queue.len() < pre.queue.len(),
        codel_dequeue(pre, now).queue =~= pre.queue.subrange(
            pre.queue.len() - codel_dequeue(pre, now).queue.len(),
            pre.queue.len() as int,
        ),
    decreases pre.queue.len(),
{
    if pre.queue.len() > 0 {
        let rest = pre.queue.subrange(1, pre.queue.len() as int);
        if head_sojourn(pre, now) < TARGET_US {
        } else if pre.first_above_time is None {
        } else if elapsed_since(now, pre.first_above_time->0) < INTERVAL_US {
        } else if !pre.dropping {
            lemma_codel_dequeue_shape(
                CoDelState { dropping: true, count: 1, drop_next: now, queue: rest, ..pre },
                now,
            );
        } else if now >= pre.drop_next {
            let count = count_after(pre.count);
            lemma_codel_dequeue_shape(
                CoDelState {
                    count,
                    drop_next: instant_after(now, control_interval(count)),
                    queue: rest,
                    ..pre
                },
                now,
            );
        }
    }
}

/// The state after a reset: that of the constructor.
pub open spec fn codel_reset(pre: CoDelState) -> CoDelState {
    codel_initial(pre.buffer_size)
}

/// Every count has a control interval, between a microsecond and the
/// interval itself.
pub proof fn lemma_control_interval_exists(count: u32)
    ensures
        is_control_interval(count, control_interval(count) as int),
        1 <= control_interval(count) <= INTERVAL_US,
{
    let found = lemma_control_interval_from(count, 0);
    assert(is_control_interval(count, (found as u64) as int));
    lemma_control_interval_unique(count, found, control_interval(count) as int);
    if found == 0 {
        let c: int = if count == 0 { 1 } else { count as int };
        assert((found + 1) * (found + 1) * c == c) by (nonlinear_arith)
            requires
                found == 0,
        ;
    }
}

/// The control interval of a count is found by counting up from any
/// number whose square times the count is within the square of the
/// interval.
pub proof fn lemma_control_interval_from(count: u32, r: int) -> (found: int)
    requires
        0 <= r <= INTERVAL_US,
        r * r * (if count == 0 { 1 } else { count as int }) <= INTERVAL_US * INTERVAL_US,
    ensures
        is_control_interval(count, found),
        r <= found <= INTERVAL_US,
    decreases INTERVAL_US - r,
{
    let c: int = if count == 0 { 1 } else { count as int };
    if (r + 1) * (r + 1) * c > INTERVAL_US * INTERVAL_US {
        r
    } else {
        if r + 1 > INTERVAL_US {
            assert((r + 1) * (r + 1) * c > INTERVAL_US * INTERVAL_US) by (nonlinear_arith)
                requires
                    r + 1 > 100_000,
                    c >= 1,
                    INTERVAL_US == 100_000,
            ;
        }
        lemma_control_interval_from(count, r + 1)
    }
}

/// Whether the first `n` packets of the queue have each waited the target
/// or longer at `now`.
pub open spec fn heads_above_target(pre: CoDelState, n: int, now: u64) -> bool {
    &&& n <= pre.queue.len()
    &&& forall|i: int| 0 <= i < n ==> elapsed_since(now, (#[trigger] pre.queue[i]).enqueue_time)
        >= TARGET_US
}

/// Whether the sojourn time has been at or above the target for an
/// interval at `now`.
pub open spec fn above_for_an_interval(pre: CoDelState, now: u64) -> bool {
    pre.first_above_time matches Some(since) && elapsed_since(now, since) >= INTERVAL_US
}

/// CoDel begins to drop an interval after the sojourn time was first seen
/// at or above the target: a departure that finds it so, with three
/// packets at the head that have each waited the target or longer, drops
/// the first on entry and the second as the first drop that is due, lets
/// the third through, and leaves the count at two and the next drop due
/// `INTERVAL_US / sqrt(2)` after the reading.
pub proof fn lemma_codel_begins_to_drop(pre: CoDelState, now: u64)
    requires
        !pre.dropping,
        above_for_an_interval(pre, now),
        heads_above_target(pre, 3, now),
        now + INTERVAL_US <= u64::MAX,
    ensures
        codel_dequeue(pre, now) == (CoDelState {
            dropping: true,
            count: 2,
            drop_next: (now + 70_710) as u64,
            queue: pre.queue.subrange(3, pre.queue.len() as int),
            ..pre
        }),
{
    lemma_control_interval_exists(2);
    assert(is_control_interval(2, 70_710)) by (nonlinear_arith);
    lemma_control_interval_unique(2, 70_710, control_interval(2) as int);
    let rest1 = pre.queue.subrange(1, pre.queue.len() as int);
    let first = CoDelState { dropping: true, count: 1, drop_next: now, queue: rest1, ..pre };
    let rest2 = rest1.subrange(1, rest1.len() as int);
    let second = CoDelState {
        count: 2,
        drop_next: instant_after(now, control_interval(2)),
        queue: rest2,
        ..first
    };
    let rest3 = rest2.subrange(1, rest2.len() as int);
    assert(rest1[0] == pre.queue[1]);
    assert(rest2[0] == pre.queue[2]);
    assert(rest3 =~= pre.queue.subrange(3, pre.queue.len() as int));
    assert(codel_dequeue(pre, now) == codel_dequeue(first, now));
    assert(codel_dequeue(first, now) == codel_dequeue(second, now));
    assert(codel_dequeue(second, now) == (CoDelState { queue: rest3, ..second }));
}

/// While CoDel drops, a departure at which a drop is due, with two
/// packets at the head that have each waited the target or longer, drops
/// the first, lets the second through, raises the count by one and has
/// the next drop due the control interval of the raised count after the
/// reading: `INTERVAL_US / sqrt(count)`.
pub proof fn lemma_codel_drops_when_due(pre: CoDelState, now: u64)
    requires
        pre.dropping,
        1 <= pre.count < u32::MAX,
        now >= pre.drop_next,
        above_for_an_interval(pre, now),
        heads_above_target(pre, 2, now),
        now + INTERVAL_US <= u64::MAX,
    ensures
        codel_dequeue(pre, now) == (CoDelState {
            count: (pre.count + 1) as u32,
            drop_next: (now + control_interval((pre.count + 1) as u32)) as u64,
            queue: pre.queue.subrange(2, pre.queue.len() as int),
            ..pre
        }),
        1 <= control_interval((pre.count + 1) as u32) <= INTERVAL_US,
{
    let count = (pre.count + 1) as u32;
    lemma_control_interval_exists(count);
    let rest1 = pre.queue.subrange(1, pre.queue.len() as int);
    let first = CoDelState {
        count,
        drop_next: instant_after(now, control_interval(count)),
        queue: rest1,
        ..pre
    };
    let rest2 = rest1.subrange(1, rest1.len() as int);
    assert(rest1[0] == pre.queue[1]);
    assert(rest2 =~= pre.queue.subrange(2, pre.queue.len() as int));
    assert(codel_dequeue(pre, now) == codel_dequeue(first, now));
    assert(codel_dequeue(first, now) == (CoDelState { queue: rest2, ..first }));
}

/// Packets that a departure at `now` drops: those that leave the queue
/// beside the one that is let through.
pub open spec fn dropped_at_departure(pre: CoDelState, now: u64) -> int {
    if pre.queue.len() == 0 {
        0
    } else {
        pre.queue.len() - codel_dequeue(pre, now).queue.len() - 1
    }
}

/// Packets that the departures of a run drop, the run starting in `pre`.
pub open spec fn dropped_in_run(pre: CoDelState, events: Seq<Event>) -> int
    decreases events.len(),
{
    if events.len() == 0 {
        0
    } else {
        let earlier = events.drop_last();
        let mid = run::<CoDel>(pre, earlier).0;
        dropped_in_run(pre, earlier) + match events.last() {
            Event::Departure { queue_len, now } => dropped_at_departure(mid, now),
            _ => 0,
        }
    }
}

/// Whether the head of the queue is below the target at every departure
/// of a run that starts in `pre`.
pub open spec fn head_stays_below_target(pre: CoDelState, events: Seq<Event>) -> bool
    decreases events.len(),
{
    if events.len() == 0 {
        true
    } else {
        let earlier = events.drop_last();
        let mid = run::<CoDel>(pre, earlier).0;
        head_stays_below_target(pre, earlier) && match events.last() {
            Event::Departure { queue_len, now } => mid.queue.len() == 0 || head_sojourn(mid, now)
                < TARGET_US,
            _ => true,
        }
    }
}

/// While the head of the queue stays below the target, CoDel drops
/// nothing, does not start dropping, and its count stays where it is: a
/// fresh instance keeps a count of zero for the whole run.
pub proof fn lemma_codel_idle_below_target(pre: CoDelState, events: Seq<Event>)
    requires
        !pre.dropping,
        head_stays_below_target(pre, events),
    ensures
        dropped_in_run(pre, events) == 0,
        !run::<CoDel>(pre, events).0.dropping,
        pre.count == 0 ==> run::<CoDel>(pre, events).0.count == 0,
    decreases events.len(),
{
    if events.len() > 0 {
        lemma_codel_idle_below_target(pre, events.drop_last());
    }
}

/// CoDel with its own queue of arrival times.
#[derive(Debug)]
pub struct CoDel {
    first_above_time: Option<u64>,
    drop_next: u64,
    count: u32,
    dropping: bool,
    queue: VecDeque<QueuedPacket>,
    buffer_size: usize,
}

impl CoDel {
    pub fn new(buffer_size: usize) -> (strategy: Self)
        ensures
            strategy.inv(),
            strategy.state() == codel_initial(buffer_size),
    {
        let strategy = CoDel {
            first_above_time: None,
            drop_next: 0,
            count: 0,
            dropping: false,
            queue: VecDeque::new(),
            buffer_size,
        };
        assert(strategy.state().queue =~= Seq::empty());
        strategy
    }

    /// Time from a drop to the next one at the current count.
    pub fn control_law(&self) -> (r: u64)
        ensures
            r == control_interval(self.state().count),
            1 <= r <= INTERVAL_US,
    {
        control_law_for(self.count)
    }

    /// Packets in the policy's own queue.
    pub fn queue_len(&self) -> (len: usize)
        ensures
            len == self.state().queue.len(),
    {
        self.queue.len()
    }

    /// Drops made since dropping began.
    pub fn count(&self) -> (count: u32)
        ensures
            count == self.state().count,
    {
        self.count
    }

    /// When the sojourn time was first seen above the target, if it is
    /// above it.
    pub fn first_above_time(&self) -> (t: Option<u64>)
        ensures
            t == self.state().first_above_time,
    {
        self.first_above_time
    }

    /// When the next drop is due while dropping.
    pub fn drop_next(&self) -> (t: u64)
        ensures
            t == self.state().drop_next,
    {
        self.drop_next
    }

    /// Whether the policy is dropping heads.
    pub fn is_dropping(&self) -> (dropping: bool)
        ensures
            dropping == self.state().dropping,
    {
        self.dropping
    }
}

impl Strategy for CoDel {
    type State = CoDelState;

    closed spec fn state(&self) -> CoDelState {
        CoDelState {
            buffer_size: self.buffer_size,
            first_above_time: self.first_above_time,
            drop_next: self.drop_next,
            count: self.count,
            dropping: self.dropping,
            queue: Seq::new(self.queue@.len(), |i: int| self.queue@[i]@),
        }
    }

    open spec fn inv(&self) -> bool {
        self.state().queue.len() <= self.state().buffer_size
    }

    open spec fn enqueue_spec(
        pre: CoDelState,
        packet: PacketView,
        queue_len: usize,
        now: u64,
        draw: u32,
    ) -> (CoDelState, Action) {
        codel_enqueue(pre, packet, now)
    }

    open spec fn dequeue_spec(pre: CoDelState, queue_len: usize, now: u64) -> CoDelState {
        codel_dequeue(pre, now)
    }

    open spec fn update_spec(pre: CoDelState, queue_len: usize, avg_sojourn_us: u64, now: u64)
        -> CoDelState {
        pre
    }

    open spec fn reset_spec(pre: CoDelState, now: u64) -> CoDelState {
        codel_reset(pre)
    }

    open spec fn clone_spec(pre: CoDelState, now: u64) -> CoDelState {
        codel_initial(pre.buffer_size)
    }

    open spec fn name_spec(pre: CoDelState) -> Seq<char> {
        "CoDel"@
    }

    proof fn lemma_reset_forgets_arrival(
        pre: Self::State,
        packet: PacketView,
        queue_len: usize,
        now: u64,
        draw: u32,
        at: u64,
    ) {
    }

    proof fn lemma_reset_forgets_departure(pre: Self::State, queue_len: usize, now: u64, at: u64) {
        lemma_codel_dequeue_shape(pre, now);
    }

    proof fn lemma_reset_forgets_tick(
        pre: Self::State,
        queue_len: usize,
        avg_sojourn_us: u64,
        now: u64,
        at: u64,
    ) {
    }

    fn enqueue_at(&mut self, packet: &Packet, queue_len: usize, now: u64, draw: u32) -> (action:
        Action) {
        if self.queue.len() >= self.buffer_size {
            return Action::Drop;
        }
        let ghost before = self.state();
        self.queue.push_back(QueuedPacket { packet: packet.clone(), enqueue_time: now });
        assert(self.state().queue =~= before.queue.push(
            QueuedView { packet: packet@, enqueue_time: now },
        ));
        Action::Accept
    }

    fn dequeue_at(&mut self, queue_len: usize, now: u64) {
        loop
            invariant_except_break
                codel_dequeue(self.state(), now) == codel_dequeue(old(self).state(), now),
            invariant
                self.inv(),
            ensures
                self.inv(),
                self.state() == codel_dequeue(old(self).state(), now),
            decreases self.queue.len(),
        {
            if self.queue.len() == 0 {
                self.dropping = false;
                self.first_above_time = None;
                break ;
            }
            let ghost before = self.state();
            let head_time = self.queue[0].enqueue_time;
            assert(head_time == before.queue[0].enqueue_time);
            let sojourn: u64 = if now >= head_time { now - head_time } else { 0 };
            let _head = self.queue.pop_front();
            assert(self.state().queue =~= before.queue.subrange(1, before.queue.len() as int));
            if sojourn < TARGET_US {
                self.first_above_time = None;
                self.dropping = false;
                break ;
            }
            let first_above = match self.first_above_time {
                None => {
                    self.first_above_time = Some(now);
                    break ;
                },
                Some(t) => t,
            };
            let time_above: u64 = if now >= first_above { now - first_above } else { 0 };
            if time_above < INTERVAL_US {
                break ;
            }
            if !self.dropping {
                self.dropping = true;
                self.count = 1;
                self.drop_next = now;
                continue ;
            }
            if now >= self.drop_next {
                self.count = if self.count == u32::MAX { u32::MAX } else { self.count + 1 };
                let pace = self.control_law();
                self.drop_next = if pace > u64::MAX - now { u64::MAX } else { now + pace };
                continue ;
            } else {
                break ;
            }
        }
    }

    fn update_at(&mut self, queue_len: usize, avg_sojourn_us: u64, now: u64) {
    }

    fn name(&self) -> (name: &'static str) {
        "CoDel"
    }

    fn reset_at(&mut self, now: u64) {
        self.first_above_time = None;
        self.drop_next = 0;
        self.dropping = false;
        self.count = 0;
        self.queue.clear();
        assert(self.state().queue =~= Seq::empty());
    }

    fn clone_box_at(&self, now: u64) -> (copy: Box<Self>) {
        Box::new(CoDel::new(self.buffer_size))
    }
}

} // verus!
