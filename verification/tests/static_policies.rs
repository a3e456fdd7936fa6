use flocknet::network::{Packet, PacketId, Priority};
use flocknet::strategies::static_strategies::{DropTail, Fifo};
use flocknet::strategies::template::MyStrategy;
use flocknet::strategies::{Action, Strategy};

fn packet(n: u64) -> Packet {
    Packet::new_at(PacketId::new(n), 1, 0, 1500, Priority::Normal, 1_700_000_000_000_000)
}

#[test]
fn drop_tail_overflow_drops_the_last_six_of_ten() {
    let mut policy = DropTail::new(4);
    let mut queue_len = 0usize;
    let mut dropped = 0u64;
    let mut decisions = Vec::new();
    for n in 0..10u64 {
        let action = policy.enqueue_at(&packet(n), queue_len, 0, 0);
        if action == Action::Drop {
            dropped += 1;
        } else {
            queue_len += 1;
        }
        decisions.push(action);
    }
    assert_eq!(&decisions[..4], &[Action::Accept; 4]);
    assert_eq!(&decisions[4..], &[Action::Drop; 6]);
    assert_eq!(dropped, 6);
}

#[test]
fn drop_tail_drops_exactly_when_the_queue_is_full() {
    let mut policy = DropTail::new(4);
    for queue_len in 0..10usize {
        let action = policy.enqueue_at(&packet(0), queue_len, 5, 999_999);
        assert_eq!(action == Action::Drop, queue_len >= 4);
        assert_eq!(action == Action::Accept, queue_len < 4);
    }
}

#[test]
fn drop_tail_of_size_zero_drops_everything() {
    let mut policy = DropTail::new(0);
    assert_eq!(policy.enqueue_at(&packet(0), 0, 0, 0), Action::Drop);
}

#[test]
fn fifo_decides_as_drop_tail() {
    let mut fifo = Fifo::new(3);
    let mut tail = DropTail::new(3);
    for queue_len in 0..6usize {
        assert_eq!(
            fifo.enqueue_at(&packet(1), queue_len, 0, 0),
            tail.enqueue_at(&packet(1), queue_len, 0, 0)
        );
    }
}

#[test]
fn static_policies_have_no_state_to_change() {
    let mut policy = DropTail::new(4);
    policy.dequeue_at(2, 10);
    policy.update_at(2, 100, 20);
    policy.reset_at(30);
    assert_eq!(policy, DropTail::new(4));
    assert_eq!(*policy.clone_box_at(40), DropTail::new(4));
    let mut fifo = Fifo::new(4);
    fifo.dequeue_at(2, 10);
    fifo.update_at(2, 100, 20);
    fifo.reset_at(30);
    assert_eq!(fifo, Fifo::new(4));
}

#[test]
fn static_policy_names() {
    assert_eq!(DropTail::new(1).name(), "DropTail");
    assert_eq!(Fifo::new(1).name(), "FIFO");
    assert_eq!(MyStrategy::new(1).name(), "MyStrategy");
}

#[test]
fn on_enqueue_draws_for_itself_and_decides_the_same() {
    let mut policy = DropTail::new(2);
    assert_eq!(policy.on_enqueue(&packet(0), 1), Action::Accept);
    assert_eq!(policy.on_enqueue(&packet(0), 2), Action::Drop);
}

#[test]
fn threshold_policy_drops_above_four_fifths() {
    let mut policy = MyStrategy::new(10);
    assert_eq!(policy.threshold_ppm, 800_000);
    assert_eq!(policy.enqueue_at(&packet(0), 8, 0, 0), Action::Accept);
    assert_eq!(policy.drop_count, 0);
    assert_eq!(policy.enqueue_at(&packet(0), 9, 0, 0), Action::Drop);
    assert_eq!(policy.drop_count, 1);
    policy.reset_at(0);
    assert_eq!(policy.drop_count, 0);
}

#[test]
fn threshold_policy_with_another_threshold() {
    let mut policy = MyStrategy::new(10).with_threshold(500_000).with_custom_param(7);
    assert_eq!(policy.enqueue_at(&packet(0), 5, 0, 0), Action::Accept);
    assert_eq!(policy.enqueue_at(&packet(0), 6, 0, 0), Action::Drop);
}

#[test]
fn threshold_policy_without_buffer_accepts_only_into_an_empty_queue() {
    let mut policy = MyStrategy::new(0);
    assert_eq!(policy.enqueue_at(&packet(0), 0, 0, 0), Action::Accept);
    assert_eq!(policy.enqueue_at(&packet(0), 1, 0, 0), Action::Drop);
}
