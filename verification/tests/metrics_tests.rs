use flocknet::metrics::{MetricsCollector, MetricsSnapshot};

#[test]
fn fresh_collector_counts_nothing() {
    let m = MetricsCollector::started_at(1_000);
    assert_eq!(
        m.snapshot_at(1_000),
        MetricsSnapshot {
            timestamp_us: 0,
            packets_sent: 0,
            packets_received: 0,
            packets_dropped: 0,
            throughput_bps: 0,
            avg_latency_us: 0,
            queue_length: 0,
            packet_loss_ppm: 0,
        }
    );
    assert!(m.get_snapshots().is_empty());
}

#[test]
fn counters_count() {
    let mut m = MetricsCollector::started_at(0);
    for _ in 0..5 {
        m.packet_sent();
    }
    for _ in 0..3 {
        m.packet_received(1_000);
    }
    m.packet_dropped();
    assert_eq!((m.packets_sent(), m.packets_received(), m.packets_dropped()), (5, 3, 1));
}

#[test]
fn snapshot_formulas() {
    let mut m = MetricsCollector::started_at(500);
    for _ in 0..20 {
        m.packet_sent();
    }
    for latency in [1_000u64, 2_000, 3_000, 4_001] {
        m.packet_received(latency);
    }
    for _ in 0..6 {
        m.packet_received(2_500);
    }
    for _ in 0..3 {
        m.packet_dropped();
    }
    m.record_queue_length(4);
    m.record_queue_length(9);
    let s = m.snapshot_at(2_000_500);
    assert_eq!(s.timestamp_us, 2_000_000);
    assert_eq!(s.packets_sent, 20);
    assert_eq!(s.packets_received, 10);
    assert_eq!(s.packets_dropped, 3);
    // 10 packets of 12 000 bits in 2 s
    assert_eq!(s.throughput_bps, 60_000);
    // 25 001 us over 10 samples, rounded down
    assert_eq!(s.avg_latency_us, 2_500);
    assert_eq!(s.queue_length, 9);
    assert_eq!(s.packet_loss_ppm, 150_000);
}

#[test]
fn throughput_is_zero_before_any_time_has_passed() {
    let mut m = MetricsCollector::started_at(100);
    m.packet_received(10);
    assert_eq!(m.snapshot_at(100).throughput_bps, 0);
    assert_eq!(m.snapshot_at(50).throughput_bps, 0);
    assert_eq!(m.snapshot_at(50).timestamp_us, 0);
    assert_eq!(m.snapshot_at(101).throughput_bps, 12_000_000_000);
}

#[test]
fn latency_samples_above_thirty_seconds_are_discarded() {
    let mut m = MetricsCollector::started_at(0);
    m.packet_received(30_000_000);
    m.packet_received(30_000_001);
    m.packet_received(u64::MAX);
    assert_eq!(m.packets_received(), 3);
    m.packet_received(0);
    // two samples were kept: 30 s and 0 s; their mean of 15 s is above 10 s
    assert_eq!(m.snapshot_at(1).avg_latency_us, 0);
    let mut n = MetricsCollector::started_at(0);
    n.packet_received(9_000_000);
    n.packet_received(40_000_000);
    assert_eq!(n.snapshot_at(1).avg_latency_us, 9_000_000);
}

#[test]
fn mean_latency_above_ten_seconds_is_reported_as_zero() {
    let mut m = MetricsCollector::started_at(0);
    m.packet_received(10_000_000);
    assert_eq!(m.snapshot_at(1).avg_latency_us, 10_000_000);
    m.packet_received(10_000_002);
    assert_eq!(m.snapshot_at(1).avg_latency_us, 0);
}

#[test]
fn loss_rate_is_dropped_over_sent() {
    let mut m = MetricsCollector::started_at(0);
    m.packet_dropped();
    assert_eq!(m.snapshot_at(1).packet_loss_ppm, 0);
    m.packet_sent();
    assert_eq!(m.snapshot_at(1).packet_loss_ppm, 1_000_000);
    m.packet_sent();
    m.packet_sent();
    assert_eq!(m.snapshot_at(1).packet_loss_ppm, 333_333);
}

#[test]
fn loss_rate_is_at_most_one_while_no_more_is_dropped_than_sent() {
    let mut m = MetricsCollector::started_at(0);
    for i in 0..50u32 {
        m.packet_sent();
        if i % 3 == 0 {
            m.packet_dropped();
        }
        let s = m.snapshot_at(10);
        assert!(s.packet_loss_ppm <= 1_000_000);
        assert!(s.avg_latency_us <= 30_000_000);
    }
}

#[test]
fn loss_rate_exceeds_one_when_more_is_dropped_than_sent() {
    let mut m = MetricsCollector::started_at(0);
    m.packet_sent();
    m.packet_dropped();
    m.packet_dropped();
    assert_eq!(m.snapshot_at(1).packet_loss_ppm, 2_000_000);
}

#[test]
fn saved_snapshots_come_back_in_order() {
    let mut m = MetricsCollector::started_at(0);
    m.save_snapshot_at(1_000_000);
    m.packet_sent();
    m.save_snapshot_at(2_000_000);
    m.packet_sent();
    m.packet_received(700);
    m.save_snapshot_at(3_000_000);
    let series = m.get_snapshots();
    assert_eq!(series.len(), 3);
    assert_eq!(series[0], MetricsCollector::started_at(0).snapshot_at(1_000_000));
    assert_eq!(series[1].packets_sent, 1);
    assert_eq!(series[2].packets_sent, 2);
    assert_eq!(series[2].packets_received, 1);
    assert_eq!(series[2].throughput_bps, 4_000);
    assert_eq!(series[2], m.snapshot_at(3_000_000));
}

#[test]
fn snapshot_timestamps_increase_with_the_clock() {
    let mut m = MetricsCollector::started_at(250);
    for tick in 1..=20u64 {
        m.save_snapshot_at(250 + tick * 1_000_000);
    }
    let series = m.get_snapshots();
    for pair in series.windows(2) {
        assert!(pair[0].timestamp_us < pair[1].timestamp_us);
    }
    assert_eq!(series[19].timestamp_us, 20_000_000);
}

#[test]
fn counters_never_decrease() {
    let mut m = MetricsCollector::started_at(0);
    let mut last = m.snapshot_at(0);
    for i in 0..100u64 {
        match i % 4 {
            0 => m.packet_sent(),
            1 => m.packet_received(i),
            2 => m.packet_dropped(),
            _ => m.record_queue_length(i as usize),
        }
        let s = m.snapshot_at(i);
        assert!(s.packets_sent >= last.packets_sent);
        assert!(s.packets_received >= last.packets_received);
        assert!(s.packets_dropped >= last.packets_dropped);
        last = s;
    }
}
