use flocknet::network::{Packet, PacketId, Priority};
use flocknet::strategies::codel::{control_law_for, isqrt, CoDel, INTERVAL_US, TARGET_US};
use flocknet::strategies::{Action, Strategy};

fn packet(n: u64) -> Packet {
    Packet::new_at(PacketId::new(n), 1, 0, 1500, Priority::Normal, 1_700_000_000_000_000)
}

fn filled(buffer_size: usize, packets: usize, at: u64) -> CoDel {
    let mut codel = CoDel::new(buffer_size);
    for n in 0..packets {
        assert_eq!(codel.enqueue_at(&packet(n as u64), 0, at, 0), Action::Accept);
    }
    codel
}

#[test]
fn codel_parameters() {
    assert_eq!(TARGET_US, 5_000);
    assert_eq!(INTERVAL_US, 100_000);
}

#[test]
fn integer_square_roots() {
    assert_eq!(isqrt(0), 0);
    assert_eq!(isqrt(1), 1);
    assert_eq!(isqrt(3), 1);
    assert_eq!(isqrt(4), 2);
    assert_eq!(isqrt(15), 3);
    assert_eq!(isqrt(16), 4);
    assert_eq!(isqrt(10_000_000_000), 100_000);
    assert_eq!(isqrt(9_999_999_999), 99_999);
    assert_eq!(isqrt(u64::MAX), 4_294_967_295);
}

#[test]
fn control_law_is_the_interval_over_the_root_of_the_count() {
    assert_eq!(control_law_for(0), 100_000);
    assert_eq!(control_law_for(1), 100_000);
    assert_eq!(control_law_for(2), 70_710);
    assert_eq!(control_law_for(3), 57_735);
    assert_eq!(control_law_for(4), 50_000);
    assert_eq!(control_law_for(100), 10_000);
    assert_eq!(control_law_for(u32::MAX), 1);
}

#[test]
fn fresh_codel_is_idle() {
    let codel = CoDel::new(8);
    assert_eq!(codel.queue_len(), 0);
    assert_eq!(codel.count(), 0);
    assert!(!codel.is_dropping());
    assert_eq!(codel.first_above_time(), None);
    assert_eq!(codel.control_law(), 100_000);
    assert_eq!(codel.name(), "CoDel");
}

#[test]
fn codel_queue_is_bounded() {
    let mut codel = filled(3, 3, 0);
    assert_eq!(codel.enqueue_at(&packet(9), 0, 0, 0), Action::Drop);
    assert_eq!(codel.queue_len(), 3);
    codel.dequeue_at(0, 1);
    assert_eq!(codel.enqueue_at(&packet(9), 0, 2, 0), Action::Accept);
}

#[test]
fn codel_below_target_lets_every_head_through() {
    let mut codel = CoDel::new(100);
    let mut now = 0u64;
    for n in 0..500u64 {
        assert_eq!(codel.enqueue_at(&packet(n), 0, now, 0), Action::Accept);
        now += 4_999;
        let before = codel.queue_len();
        codel.dequeue_at(0, now);
        assert_eq!(codel.queue_len(), before - 1);
        assert_eq!(codel.count(), 0);
        assert!(!codel.is_dropping());
        assert_eq!(codel.first_above_time(), None);
    }
}

#[test]
fn codel_notes_when_the_sojourn_first_reaches_the_target() {
    let mut codel = filled(10, 5, 0);
    codel.dequeue_at(0, 5_000);
    assert_eq!(codel.first_above_time(), Some(5_000));
    assert_eq!(codel.queue_len(), 4);
    assert!(!codel.is_dropping());
    assert_eq!(codel.count(), 0);
}

#[test]
fn codel_waits_an_interval_before_it_drops() {
    let mut codel = filled(10, 5, 0);
    codel.dequeue_at(0, 10_000);
    codel.dequeue_at(0, 109_999);
    assert_eq!(codel.queue_len(), 3);
    assert!(!codel.is_dropping());
    assert_eq!(codel.first_above_time(), Some(10_000));
}

#[test]
fn codel_enters_dropping_an_interval_after_the_first_measurement_above_target() {
    let mut codel = filled(10, 5, 0);
    codel.dequeue_at(0, 10_000);
    assert_eq!(codel.queue_len(), 4);
    codel.dequeue_at(0, 110_000);
    // one head dropped on entry, one more as the first drop is due at once,
    // then one let through
    assert!(codel.is_dropping());
    assert_eq!(codel.count(), 2);
    assert_eq!(codel.drop_next(), 110_000 + 70_710);
    assert_eq!(codel.queue_len(), 1);
    assert_eq!(codel.control_law(), 70_710);
}

#[test]
fn codel_drop_times_follow_the_control_law() {
    let mut codel = filled(100, 50, 0);
    codel.dequeue_at(0, 10_000);
    codel.dequeue_at(0, 110_000);
    assert_eq!((codel.count(), codel.drop_next()), (2, 180_710));
    codel.dequeue_at(0, 180_709);
    assert_eq!((codel.count(), codel.drop_next()), (2, 180_710));
    assert_eq!(codel.queue_len(), 45);
    codel.dequeue_at(0, 180_710);
    assert_eq!((codel.count(), codel.drop_next()), (3, 180_710 + 57_735));
    assert_eq!(codel.queue_len(), 43);
    codel.dequeue_at(0, 238_445);
    assert_eq!((codel.count(), codel.drop_next()), (4, 238_445 + 50_000));
    assert_eq!(codel.queue_len(), 41);
}

#[test]
fn codel_leaves_dropping_when_the_head_is_below_target() {
    let mut codel = filled(100, 6, 0);
    codel.dequeue_at(0, 10_000);
    codel.dequeue_at(0, 110_000);
    assert!(codel.is_dropping());
    assert_eq!(codel.enqueue_at(&packet(99), 0, 200_000, 0), Action::Accept);
    // three old packets are at the head still
    codel.dequeue_at(0, 111_000);
    codel.dequeue_at(0, 112_000);
    assert_eq!(codel.queue_len(), 1);
    codel.dequeue_at(0, 201_000);
    assert!(!codel.is_dropping());
    assert_eq!(codel.first_above_time(), None);
    assert_eq!(codel.count(), 2);
    assert_eq!(codel.queue_len(), 0);
}

#[test]
fn codel_leaves_dropping_on_an_empty_queue() {
    let mut codel = filled(100, 4, 0);
    codel.dequeue_at(0, 10_000);
    codel.dequeue_at(0, 110_000);
    assert!(codel.is_dropping());
    assert_eq!(codel.queue_len(), 0);
    codel.dequeue_at(0, 120_000);
    assert!(!codel.is_dropping());
    assert_eq!(codel.first_above_time(), None);
    assert_eq!(codel.queue_len(), 0);
}

#[test]
fn codel_dropping_empties_a_short_queue_without_going_on() {
    let mut codel = filled(100, 2, 0);
    codel.dequeue_at(0, 10_000);
    codel.dequeue_at(0, 110_000);
    assert_eq!(codel.queue_len(), 0);
    assert!(!codel.is_dropping());
    assert_eq!(codel.count(), 1);
}

#[test]
fn codel_update_changes_nothing() {
    let mut codel = filled(10, 3, 0);
    codel.update_at(3, 9_000, 500_000);
    assert_eq!(codel.queue_len(), 3);
    assert_eq!(codel.count(), 0);
    assert_eq!(codel.first_above_time(), None);
}

#[test]
fn codel_reset_is_a_fresh_instance() {
    let mut codel = filled(100, 6, 0);
    codel.dequeue_at(0, 10_000);
    codel.dequeue_at(0, 110_000);
    codel.reset_at(0);
    assert_eq!(codel.queue_len(), 0);
    assert_eq!(codel.count(), 0);
    assert!(!codel.is_dropping());
    assert_eq!(codel.first_above_time(), None);
    assert_eq!(codel.drop_next(), 0);
    let copy = filled(7, 3, 0).clone_box_at(0);
    assert_eq!(copy.queue_len(), 0);
    assert_eq!(copy.enqueue_at_capacity(), 7);
}

trait Capacity {
    fn enqueue_at_capacity(self) -> usize;
}

impl Capacity for Box<CoDel> {
    fn enqueue_at_capacity(mut self) -> usize {
        let mut accepted = 0;
        while self.enqueue_at(&packet(0), 0, 0, 0) == Action::Accept {
            accepted += 1;
        }
        accepted
    }
}

#[test]
fn codel_clock_that_runs_backwards_counts_as_no_time() {
    let mut codel = filled(10, 2, 1_000_000);
    codel.dequeue_at(0, 5);
    assert_eq!(codel.first_above_time(), None);
    assert_eq!(codel.queue_len(), 1);
}
