use flocknet::metrics::MetricsCollector;
use flocknet::network::{Packet, PacketId, Priority};
use flocknet::server::{mean_of, Server, SOJOURN_WINDOW, UPDATE_EVERY};
use flocknet::strategies::red::Red;
use flocknet::strategies::static_strategies::DropTail;
use flocknet::strategies::Action;

const T0: u64 = 1_700_000_000_000_000;

fn packet(n: u64, created: u64) -> Packet {
    Packet::new_at(PacketId::new(n), 1, 0, 1500, Priority::Normal, created as u128)
}

fn drop_tail_server(buffer_size: usize) -> Server<DropTail> {
    Server::new(3, "127.0.0.1:5003".to_string(), DropTail::new(buffer_size), buffer_size, 100_000_000)
}

#[test]
fn new_server_is_empty() {
    let server = drop_tail_server(4);
    assert_eq!(server.id(), 3);
    assert_eq!(server.addr(), "127.0.0.1:5003");
    assert_eq!(server.queue_len(), 0);
    assert_eq!(server.buffer_size(), 4);
    assert_eq!(server.bandwidth_bps(), 100_000_000);
    assert_eq!(server.packets_processed(), 0);
    assert_eq!(server.recent_mean_sojourn(), 0);
    assert_eq!(*server.strategy(), DropTail::new(4));
    assert_eq!((UPDATE_EVERY, SOJOURN_WINDOW), (3, 100));
}

#[test]
fn packet_time_is_the_time_on_the_wire() {
    assert_eq!(drop_tail_server(1).packet_time(), Some(120_000));
    let slow = Server::new(0, String::new(), DropTail::new(1), 1, 7);
    assert_eq!(slow.packet_time(), Some(1_714_285_714_285));
    let dead = Server::new(0, String::new(), DropTail::new(1), 1, 0);
    assert_eq!(dead.packet_time(), None);
}

#[test]
fn drop_tail_server_of_four_drops_six_of_ten() {
    let mut metrics = MetricsCollector::started_at(T0);
    let mut server = drop_tail_server(4);
    let mut fates = Vec::new();
    for n in 0..10u64 {
        fates.push(server.enqueue_packet_at(packet(n, T0), &mut metrics, T0, 0));
    }
    assert_eq!(&fates[..4], &[Action::Accept; 4]);
    assert_eq!(&fates[4..], &[Action::Drop; 6]);
    assert_eq!(metrics.packets_dropped(), 6);
    assert_eq!(server.queue_len(), 4);
    assert_eq!(metrics.snapshot_at(T0).queue_length, 4);
}

#[test]
fn enqueue_with_its_own_draw_decides_the_same_for_drop_tail() {
    let mut metrics = MetricsCollector::started_at(T0);
    let mut server = drop_tail_server(1);
    assert_eq!(server.enqueue_packet(packet(0, T0), &mut metrics), Action::Accept);
    assert_eq!(server.enqueue_packet(packet(1, T0), &mut metrics), Action::Drop);
    assert_eq!(metrics.packets_dropped(), 1);
}

#[test]
fn full_buffer_drops_whatever_the_policy_says() {
    let mut metrics = MetricsCollector::started_at(T0);
    // RED of a large buffer accepts everything at these lengths
    let mut server = Server::new(0, String::new(), Red::new(1000), 3, 100_000_000);
    for n in 0..3u64 {
        assert_eq!(server.enqueue_packet_at(packet(n, T0), &mut metrics, T0, 0), Action::Accept);
    }
    for n in 3..8u64 {
        assert_eq!(server.enqueue_packet_at(packet(n, T0), &mut metrics, T0, 0), Action::Drop);
        assert_eq!(server.queue_len(), 3);
    }
    assert_eq!(metrics.packets_dropped(), 5);
    assert_eq!(server.strategy().count, 8);
}

#[test]
fn queue_length_never_exceeds_the_buffer_size() {
    let mut metrics = MetricsCollector::started_at(T0);
    let mut server = Server::new(0, String::new(), Red::new(8), 8, 100_000_000);
    let mut x = 12345u64;
    for step in 0..5_000u64 {
        x = x.wrapping_mul(6364136223846793005).wrapping_add(1442695040888963407);
        if (x >> 40) % 3 != 0 {
            server.enqueue_packet_at(packet(step, T0 + step), &mut metrics, T0 + step, ((x >> 20) % 1_000_000) as u32);
        } else {
            server.drain_tick_at(&mut metrics, T0 + step);
        }
        assert!(server.queue_len() <= server.buffer_size());
    }
}

#[test]
fn packets_leave_in_the_order_they_came() {
    let mut metrics = MetricsCollector::started_at(T0);
    let mut server = drop_tail_server(10);
    for n in 0..5u64 {
        server.enqueue_packet_at(packet(n, T0), &mut metrics, T0, 0);
    }
    for n in 0..5u64 {
        let out = server.drain_tick_at(&mut metrics, T0 + 10).unwrap();
        assert_eq!(out.id.value(), n);
    }
    assert!(server.drain_tick_at(&mut metrics, T0 + 10).is_none());
    assert_eq!(server.packets_processed(), 5);
    assert_eq!(metrics.packets_received(), 5);
}

#[test]
fn drainer_reports_the_sojourn_of_each_packet() {
    let mut metrics = MetricsCollector::started_at(T0);
    let mut server = drop_tail_server(10);
    server.enqueue_packet_at(packet(0, T0), &mut metrics, T0, 0);
    server.enqueue_packet_at(packet(1, T0 + 100), &mut metrics, T0 + 100, 0);
    server.drain_tick_at(&mut metrics, T0 + 400);
    assert_eq!(server.recent_mean_sojourn(), 400);
    server.drain_tick_at(&mut metrics, T0 + 701);
    // 400 and 601, rounded down
    assert_eq!(server.recent_mean_sojourn(), 500);
    assert_eq!(metrics.snapshot_at(T0 + 1_000_000).avg_latency_us, 500);
}

#[test]
fn sojourn_window_holds_the_last_hundred() {
    let mut metrics = MetricsCollector::started_at(T0);
    let mut server = drop_tail_server(1000);
    for n in 0..150u64 {
        server.enqueue_packet_at(packet(n, T0), &mut metrics, T0, 0);
    }
    for n in 0..150u64 {
        server.drain_tick_at(&mut metrics, T0 + n + 1);
    }
    // the last hundred sojourn times are 51..=150
    assert_eq!(server.recent_mean_sojourn(), (51 + 150) / 2);
}

#[test]
fn mean_of_a_window() {
    assert_eq!(mean_of(&vec![]), 0);
    assert_eq!(mean_of(&vec![7]), 7);
    assert_eq!(mean_of(&vec![1, 2, 4]), 2);
    assert_eq!(mean_of(&vec![30_000_000; 100]), 30_000_000);
}

#[test]
fn policy_is_updated_with_every_third_tick() {
    let mut metrics = MetricsCollector::started_at(T0);
    let mut server = Server::new(0, String::new(), Red::new(100), 100, 100_000_000);
    let mut averages = Vec::new();
    for _ in 0..7 {
        server.drain_tick_at(&mut metrics, T0);
        averages.push(server.strategy().avg_queue);
    }
    assert_eq!(averages, vec![0; 7]);
    for n in 0..50u64 {
        server.enqueue_packet_at(packet(n, T0), &mut metrics, T0, 999_999);
    }
    let start = server.strategy().avg_queue;
    let mut changed = Vec::new();
    let mut last = start;
    for _ in 0..9 {
        server.drain_tick_at(&mut metrics, T0);
        changed.push(server.strategy().avg_queue != last);
        last = server.strategy().avg_queue;
    }
    // seven ticks went before: the ninth, twelfth and fifteenth update
    assert_eq!(changed, vec![false, true, false, false, true, false, false, true, false]);
}

#[test]
fn every_sent_packet_is_received_dropped_or_queued() {
    let mut metrics = MetricsCollector::started_at(T0);
    let mut server = drop_tail_server(5);
    let mut x = 99u64;
    for step in 0..3_000u64 {
        x = x.wrapping_mul(6364136223846793005).wrapping_add(1442695040888963407);
        if (x >> 40) % 2 == 0 {
            metrics.packet_sent();
            server.enqueue_packet_at(packet(step, T0), &mut metrics, T0, 0);
        } else {
            server.drain_tick_at(&mut metrics, T0 + step);
        }
        assert_eq!(
            metrics.packets_received() + metrics.packets_dropped() + server.queue_len() as u64,
            metrics.packets_sent()
        );
        assert!(metrics.packets_received() + metrics.packets_dropped() <= metrics.packets_sent());
    }
}
