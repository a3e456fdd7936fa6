use flocknet::network::{Packet, PacketId, Priority};
use flocknet::strategies::fq_codel::{decide_flow, FlowState, FqCoDel, NUM_FLOWS};
use flocknet::strategies::{Action, Strategy};

fn packet(source: u32) -> Packet {
    Packet::new_at(PacketId::new(0), source, 0, 1500, Priority::Normal, 1_700_000_000_000_000)
}

fn fill(fq: &mut FqCoDel, source: u32, packets: usize, now: u64) {
    for _ in 0..packets {
        assert_eq!(fq.enqueue_at(&packet(source), 0, now, 0), Action::Accept);
    }
}

#[test]
fn flows_are_the_source_agent_modulo_1024() {
    assert_eq!(NUM_FLOWS, 1024);
    assert_eq!(FqCoDel::hash_flow(&packet(0)), 0);
    assert_eq!(FqCoDel::hash_flow(&packet(1023)), 1023);
    assert_eq!(FqCoDel::hash_flow(&packet(1024)), 0);
    assert_eq!(FqCoDel::hash_flow(&packet(1025)), 1);
    assert_eq!(FqCoDel::hash_flow(&packet(u32::MAX)), 1023);
}

#[test]
fn fresh_fq_codel_is_empty() {
    let fq = FqCoDel::new(16);
    assert_eq!(fq.total_queue_length(), 0);
    assert_eq!(fq.flow_queue_length(0), 0);
    assert_eq!(fq.flow_queue_length(5000), 0);
    assert_eq!(fq.flow_state(3), None);
    assert_eq!(fq.last_dequeue_flow(), None);
    assert_eq!(fq.name(), "FQ-CoDel");
    assert_eq!(fq.control_law(4), 50_000);
    assert_eq!(FlowState::new(), FlowState { first_above_time: None, drop_next: 0, count: 0, dropping: false });
}

#[test]
fn accepted_packets_join_their_flow() {
    let mut fq = FqCoDel::new(16);
    fill(&mut fq, 1, 3, 0);
    fill(&mut fq, 1025, 1, 0);
    fill(&mut fq, 2, 2, 0);
    assert_eq!(fq.flow_queue_length(1), 4);
    assert_eq!(fq.flow_queue_length(2), 2);
    assert_eq!(fq.total_queue_length(), 6);
    assert_eq!(fq.flow_state(1), Some(FlowState::new()));
    assert_eq!(fq.flow_state(7), None);
}

#[test]
fn fq_codel_drops_when_all_queues_together_are_full() {
    let mut fq = FqCoDel::new(4);
    fill(&mut fq, 1, 2, 0);
    fill(&mut fq, 2, 2, 0);
    assert_eq!(fq.enqueue_at(&packet(3), 0, 0, 0), Action::Drop);
    assert_eq!(fq.enqueue_at(&packet(1), 0, 0, 0), Action::Drop);
    assert_eq!(fq.total_queue_length(), 4);
    assert_eq!(fq.flow_state(3), None);
    fq.dequeue_at(0, 0);
    assert_eq!(fq.enqueue_at(&packet(3), 0, 0, 0), Action::Accept);
}

#[test]
fn head_sojourn_is_the_time_the_head_of_the_flow_has_waited() {
    let mut fq = FqCoDel::new(100);
    assert_eq!(fq.estimate_sojourn_time_at(1, 9_000), 0);
    fill(&mut fq, 1, 1, 1_000);
    fill(&mut fq, 1, 1, 4_000);
    assert_eq!(fq.estimate_sojourn_time_at(1, 1_000), 0);
    assert_eq!(fq.estimate_sojourn_time_at(1, 6_000), 5_000);
    assert_eq!(fq.estimate_sojourn_time_at(1, 500), 0);
    assert_eq!(fq.estimate_sojourn_time_at(2, 6_000), 0);
    assert_eq!(fq.estimate_sojourn_time_at(4000, 6_000), 0);
    fq.dequeue_at(0, 6_000);
    assert_eq!(fq.estimate_sojourn_time_at(1, 6_000), 2_000);
    fq.dequeue_at(0, 6_000);
    assert_eq!(fq.estimate_sojourn_time_at(1, 6_000), 0);
    assert_eq!(fq.estimate_sojourn_time(1), 0);
    fill(&mut fq, 4, 1, flocknet::clock::now_micros() - 1_000_000);
    let waited = fq.estimate_sojourn_time(4);
    assert!(waited >= 1_000_000 && waited < 5_000_000, "{waited}");
}

#[test]
fn flow_verdict_below_target_clears_the_flow() {
    let st = FlowState { first_above_time: Some(5), drop_next: 9, count: 4, dropping: true };
    let (next, drop) = decide_flow(st, 4_999, 100);
    assert!(!drop);
    assert_eq!(next, FlowState { first_above_time: None, drop_next: 9, count: 0, dropping: false });
}

#[test]
fn flow_verdict_above_target_waits_an_interval() {
    let (st1, drop1) = decide_flow(FlowState::new(), 5_000, 1_000);
    assert!(!drop1);
    assert_eq!(st1.first_above_time, Some(1_000));
    let (st2, drop2) = decide_flow(st1, 5_000, 100_999);
    assert!(!drop2);
    assert_eq!(st2, st1);
    let (st3, drop3) = decide_flow(st2, 5_000, 101_000);
    assert!(drop3);
    assert_eq!(st3, FlowState { first_above_time: Some(1_000), drop_next: 101_000, count: 1, dropping: true });
}

#[test]
fn flow_verdict_while_dropping_follows_the_control_law() {
    let st = FlowState { first_above_time: Some(0), drop_next: 200_000, count: 1, dropping: true };
    let (early, drop_early) = decide_flow(st, 9_000, 199_999);
    assert!(!drop_early);
    assert_eq!(early, st);
    let (a, drop_a) = decide_flow(st, 9_000, 200_000);
    assert!(drop_a);
    assert_eq!(a, FlowState { first_above_time: Some(0), drop_next: 270_710, count: 2, dropping: true });
    let (b, drop_b) = decide_flow(a, 9_000, 270_710);
    assert!(drop_b);
    assert_eq!(b, FlowState { first_above_time: Some(0), drop_next: 328_445, count: 3, dropping: true });
    let (c, drop_c) = decide_flow(b, 9_000, 400_000);
    assert!(drop_c);
    assert_eq!(c, FlowState { first_above_time: Some(0), drop_next: 450_000, count: 4, dropping: true });
    let last = FlowState { first_above_time: Some(0), drop_next: 0, count: u32::MAX, dropping: true };
    let (d, drop_d) = decide_flow(last, 9_000, 400_000);
    assert!(drop_d);
    assert_eq!(d, FlowState { first_above_time: Some(0), drop_next: 400_001, count: u32::MAX, dropping: true });
}

#[test]
fn a_flow_whose_head_waits_is_punished_and_a_fresh_one_is_not() {
    let mut fq = FqCoDel::new(1000);
    fill(&mut fq, 1, 3, 0);
    assert_eq!(fq.enqueue_at(&packet(1), 0, 4_999, 0), Action::Accept);
    assert_eq!(fq.flow_state(1), Some(FlowState::new()));
    assert_eq!(fq.enqueue_at(&packet(1), 0, 5_000, 0), Action::Accept);
    assert_eq!(fq.flow_state(1).unwrap().first_above_time, Some(5_000));
    assert_eq!(fq.enqueue_at(&packet(1), 0, 104_999, 0), Action::Accept);
    assert_eq!(fq.enqueue_at(&packet(1), 0, 105_000, 0), Action::Drop);
    assert_eq!(fq.enqueue_at(&packet(2), 0, 105_000, 0), Action::Accept);
    assert_eq!(fq.enqueue_at(&packet(1), 0, 105_000, 0), Action::Drop);
    assert_eq!(fq.flow_state(1).unwrap().count, 2);
    assert_eq!(fq.flow_state(1).unwrap().drop_next, 175_710);
    assert_eq!(fq.enqueue_at(&packet(1), 0, 150_000, 0), Action::Accept);
    assert_eq!(fq.enqueue_at(&packet(1), 0, 175_710, 0), Action::Drop);
    assert_eq!(fq.flow_state(1).unwrap().count, 3);
    assert_eq!(fq.flow_state(1).unwrap().drop_next, 175_710 + 57_735);
    assert_eq!(fq.enqueue_at(&packet(2), 0, 106_000, 0), Action::Accept);
    assert_eq!(fq.flow_state(2), Some(FlowState::new()));
    assert_eq!(fq.flow_queue_length(1), 7);
    assert_eq!(fq.flow_queue_length(2), 2);
}

#[test]
fn a_flow_is_cleared_once_its_old_packets_have_left() {
    let mut fq = FqCoDel::new(1000);
    fill(&mut fq, 1, 2, 0);
    assert_eq!(fq.enqueue_at(&packet(1), 0, 1_000_000_000, 0), Action::Accept);
    assert_eq!(fq.flow_state(1).unwrap().first_above_time, Some(1_000_000_000));
    assert_eq!(fq.enqueue_at(&packet(1), 0, 1_000_100_000, 0), Action::Drop);
    fq.dequeue_at(0, 1_000_100_000);
    fq.dequeue_at(0, 1_000_100_000);
    assert_eq!(fq.estimate_sojourn_time_at(1, 1_000_100_001), 100_001);
    fq.dequeue_at(0, 1_000_100_001);
    assert_eq!(fq.enqueue_at(&packet(1), 0, 1_000_100_002, 0), Action::Accept);
    assert_eq!(fq.flow_state(1), Some(FlowState { first_above_time: None, drop_next: 1_000_100_000, count: 0, dropping: false }));
}

#[test]
fn departures_go_round_the_flows_in_order() {
    let mut fq = FqCoDel::new(100);
    fill(&mut fq, 3, 2, 0);
    fill(&mut fq, 1, 2, 0);
    fill(&mut fq, 2, 2, 0);
    let mut served = Vec::new();
    for _ in 0..6 {
        fq.dequeue_at(0, 10);
        served.push(fq.last_dequeue_flow().unwrap());
    }
    assert_eq!(served, vec![1, 2, 3, 1, 2, 3]);
    assert_eq!(fq.total_queue_length(), 0);
}

#[test]
fn departures_skip_empty_flows_and_wrap_around() {
    let mut fq = FqCoDel::new(100);
    fill(&mut fq, 1023, 1, 0);
    fill(&mut fq, 500, 2, 0);
    fq.dequeue_at(0, 0);
    assert_eq!(fq.last_dequeue_flow(), Some(500));
    fq.dequeue_at(0, 0);
    assert_eq!(fq.last_dequeue_flow(), Some(1023));
    fill(&mut fq, 0, 1, 0);
    fill(&mut fq, 1023, 1, 0);
    fq.dequeue_at(0, 0);
    assert_eq!(fq.last_dequeue_flow(), Some(0));
    fq.dequeue_at(0, 0);
    assert_eq!(fq.last_dequeue_flow(), Some(500));
    fq.dequeue_at(0, 0);
    assert_eq!(fq.last_dequeue_flow(), Some(1023));
    assert_eq!(fq.total_queue_length(), 0);
}

#[test]
fn a_departure_removes_exactly_one_packet() {
    let mut fq = FqCoDel::new(100);
    fill(&mut fq, 7, 5, 0);
    fill(&mut fq, 9, 5, 0);
    for left in (0..10usize).rev() {
        fq.dequeue_at(0, 0);
        assert_eq!(fq.total_queue_length(), left);
    }
}

#[test]
fn a_departure_from_empty_queues_changes_nothing() {
    let mut fq = FqCoDel::new(100);
    fq.dequeue_at(0, 0);
    assert_eq!(fq.last_dequeue_flow(), None);
    fill(&mut fq, 4, 1, 0);
    fq.dequeue_at(0, 0);
    fq.dequeue_at(0, 0);
    assert_eq!(fq.last_dequeue_flow(), Some(4));
    assert_eq!(fq.total_queue_length(), 0);
}

#[test]
fn backlogged_flows_are_served_alike() {
    let mut fq = FqCoDel::new(10_000);
    fill(&mut fq, 10, 300, 0);
    fill(&mut fq, 700, 300, 0);
    fill(&mut fq, 20, 5, 0);
    let mut served_a = 0i64;
    let mut served_b = 0i64;
    for step in 0..400u32 {
        if step % 7 == 0 {
            fill(&mut fq, 333, 1, 0);
        }
        fq.dequeue_at(0, 0);
        match fq.last_dequeue_flow() {
            Some(10) => served_a += 1,
            Some(700) => served_b += 1,
            _ => {}
        }
        assert!(fq.flow_queue_length(10) > 0 && fq.flow_queue_length(700) > 0);
        assert!((served_a - served_b).abs() <= 1);
    }
    assert!(served_a >= 150);
}

#[test]
fn periodic_tick_forgets_idle_flows_without_packets() {
    let mut fq = FqCoDel::new(1000);
    fill(&mut fq, 1, 1, 0);
    fill(&mut fq, 2, 1, 0);
    fill(&mut fq, 3, 2, 0);
    assert_eq!(fq.enqueue_at(&packet(3), 0, 6_000, 0), Action::Accept);
    fq.dequeue_at(0, 6_000);
    assert_eq!(fq.flow_queue_length(1), 0);
    fq.update_at(0, 0, 6_000);
    assert_eq!(fq.flow_state(1), None);
    assert_eq!(fq.flow_state(2), Some(FlowState::new()));
    assert_eq!(fq.flow_state(3).unwrap().first_above_time, Some(6_000));
    assert_eq!(fq.total_queue_length(), 4);
    // a flow above its target keeps its state even without packets
    for _ in 0..4 {
        fq.dequeue_at(0, 6_000);
    }
    fq.update_at(0, 0, 6_000);
    assert_eq!(fq.flow_state(2), None);
    assert_eq!(fq.flow_state(3).unwrap().first_above_time, Some(6_000));
}

#[test]
fn fq_codel_reset_is_a_fresh_instance() {
    let mut fq = FqCoDel::new(100);
    fill(&mut fq, 1, 50, 0);
    fq.dequeue_at(0, 0);
    fq.reset_at(0);
    assert_eq!(fq.total_queue_length(), 0);
    assert_eq!(fq.flow_state(1), None);
    assert_eq!(fq.last_dequeue_flow(), None);
    let mut copy = FqCoDel::new(2).clone_box_at(0);
    fill(&mut copy, 1, 2, 0);
    assert_eq!(copy.enqueue_at(&packet(1), 0, 0, 0), Action::Drop);
}

#[test]
fn as_many_departures_as_flows_take_one_packet_from_each() {
    let ids = [3u32, 17, 200, 555, 1023];
    for served_last in [None, Some(17u32), Some(1023)] {
        let mut fq = FqCoDel::new(100);
        if let Some(flow) = served_last {
            fill(&mut fq, flow, 1, 0);
            fq.dequeue_at(0, 0);
            assert_eq!(fq.last_dequeue_flow(), Some(flow));
        }
        for (n, id) in ids.iter().enumerate() {
            fill(&mut fq, *id, 2 + n, 0);
        }
        let mut taken = vec![0usize; ids.len()];
        for _ in 0..ids.len() {
            fq.dequeue_at(0, 0);
            for (n, id) in ids.iter().enumerate() {
                taken[n] = 2 + n - fq.flow_queue_length(*id);
            }
            assert!(taken.iter().max().unwrap() - taken.iter().min().unwrap() <= 1);
        }
        assert_eq!(taken, vec![1; ids.len()]);
        for _ in 0..ids.len() {
            fq.dequeue_at(0, 0);
        }
        for (n, id) in ids.iter().enumerate() {
            assert_eq!(fq.flow_queue_length(*id), n);
        }
    }
}
