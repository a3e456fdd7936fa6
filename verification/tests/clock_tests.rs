use flocknet::agent::{Agent, TrafficPattern};
use flocknet::clock::{instant_after_anchor, instant_from, now_micros, Clock};
use flocknet::metrics::MetricsCollector;
use flocknet::network::packet::MIN_VALID_TIMESTAMP_MICROS;
use flocknet::network::{Packet, PacketId, Priority};
use flocknet::server::Server;
use flocknet::simulation::{Directive, Phase, Signal, SimConfig, Simulation};
use flocknet::strategies::blue::Blue;
use flocknet::strategies::codel::CoDel;
use flocknet::strategies::pie::Pie;
use flocknet::strategies::red::AdaptiveRed;
use flocknet::strategies::static_strategies::DropTail;
use flocknet::strategies::{Action, BuiltinStrategy, Strategy, StrategyBuilder, StrategyKind, StrategyRegistry};

#[test]
fn the_clock_reads_a_time_of_this_century_and_does_not_run_back_by_much() {
    let a = now_micros();
    let b = now_micros();
    assert!(u128::from(a) > MIN_VALID_TIMESTAMP_MICROS);
    assert!(b + 1_000_000 > a);
}

#[test]
fn a_new_packet_is_stamped_with_the_time() {
    let before = now_micros();
    let p = Packet::new(PacketId::new(1), 2, 3, 1500, Priority::Normal);
    let after = now_micros();
    assert!(p.created_at_micros() + 1_000_000 > u128::from(before));
    assert!(p.created_at_micros() < u128::from(after) + 1_000_000);
    assert_eq!(p.data.len(), 1500);
    assert_eq!((p.id.value(), p.source_agent, p.destination_server), (1, 2, 3));
    assert!(p.sojourn_time() < 1_000_000);
    let old = Packet::new_at(PacketId::new(1), 2, 3, 0, Priority::Normal, u128::from(before) - 60_000_000);
    assert_eq!(old.sojourn_time(), 0);
    let recent = Packet::new_at(PacketId::new(1), 2, 3, 0, Priority::Normal, u128::from(before) - 2_000_000);
    let sojourn = recent.sojourn_time();
    assert!(sojourn >= 2_000_000 - 1_000_000 && sojourn < 3_000_000 + 1_000_000, "{sojourn}");
}

#[test]
fn policies_made_now_start_as_policies_made_at_an_instant() {
    let blue = Blue::new(100);
    assert_eq!(blue, Blue::new_at(100, blue.last_update));
    let pie = Pie::new();
    assert_eq!(pie, Pie::new_at(pie.last_update));
    let slow = Pie::new_with_bandwidth(10);
    assert_eq!(slow, Pie::new_with_bandwidth_at(10, slow.last_update));
    let ared = AdaptiveRed::new(100);
    assert_eq!(ared, AdaptiveRed::new_at(100, ared.last_update));
    assert!(u128::from(blue.last_update) > MIN_VALID_TIMESTAMP_MICROS);
    assert_eq!(BuiltinStrategy::create(StrategyKind::Blue, 10).kind(), StrategyKind::Blue);
    assert_eq!(StrategyRegistry::new().create("PIE", 10).unwrap().kind(), StrategyKind::Pie);
    assert!(StrategyRegistry::new().create("none", 10).is_none());
    assert_eq!(StrategyBuilder::new("codel".to_string()).build().unwrap().name(), "CoDel");
}

#[test]
fn a_policy_reads_the_clock_for_itself() {
    let packet = Packet::new(PacketId::new(0), 0, 0, 0, Priority::Normal);
    let mut codel = CoDel::new(4);
    for _ in 0..4 {
        assert_eq!(codel.on_enqueue(&packet, 0), Action::Accept);
    }
    assert_eq!(codel.on_enqueue(&packet, 0), Action::Drop);
    codel.on_dequeue(3);
    assert_eq!(codel.queue_len(), 3);
    assert_eq!(codel.count(), 0);
    codel.update(3, 100);
    codel.reset();
    assert_eq!(codel.queue_len(), 0);
    assert_eq!(codel.clone_box().queue_len(), 0);

    let mut blue = Blue::new_at(100, 0);
    blue.on_enqueue(&packet, 100);
    assert_eq!(blue.p_mark, 20_000);
    assert!(u128::from(blue.last_loss_event.unwrap()) > MIN_VALID_TIMESTAMP_MICROS);
    blue.reset();
    assert_eq!(blue, Blue::new_at(100, blue.last_update));
}

#[test]
fn a_collector_reads_the_clock_for_itself() {
    let mut m = MetricsCollector::new();
    m.packet_sent();
    m.packet_received(5);
    let s = m.snapshot();
    assert!(s.timestamp_us < 1_000_000);
    assert_eq!((s.packets_sent, s.packets_received, s.avg_latency_us), (1, 1, 5));
    m.save_snapshot();
    m.save_snapshot();
    let series = m.get_snapshots();
    assert_eq!(series.len(), 2);
    assert!(series[0].timestamp_us <= series[1].timestamp_us);
    assert_eq!(MetricsCollector::default().snapshot().packets_sent, 0);
}

#[test]
fn a_server_reads_the_clock_for_itself() {
    let mut metrics = MetricsCollector::new();
    let mut server = Server::new(0, String::new(), DropTail::new(2), 2, 100_000_000);
    let mut agent = Agent::new(4, vec![String::new()], TrafficPattern::Constant { rate_mpps: 1 });
    assert_eq!(server.enqueue_packet(agent.make_packet(0), &mut metrics), Action::Accept);
    assert_eq!(server.enqueue_packet(agent.make_packet(0), &mut metrics), Action::Accept);
    assert_eq!(server.enqueue_packet(agent.make_packet(0), &mut metrics), Action::Drop);
    let out = server.drain_tick(&mut metrics).unwrap();
    assert_eq!((out.id.value(), out.source_agent), (0, 4));
    assert!(server.recent_mean_sojourn() < 1_000_000);
    assert_eq!((metrics.packets_received(), metrics.packets_dropped()), (1, 1));
}

#[test]
fn a_run_reads_the_clock_for_itself() {
    let mut sim = Simulation::new(SimConfig::default());
    assert_eq!(sim.current_phase(), Phase::Created);
    assert_eq!(sim.step(Signal::Start), Directive::SpawnServer { index: 0, port: 5000 });
    let server = sim.make_server(1).unwrap();
    assert_eq!(server.strategy().kind(), StrategyKind::DropTail);
    assert_eq!(server.addr(), "127.0.0.1:5001");
}

#[test]
fn a_reading_becomes_an_instant() {
    assert_eq!(instant_from(None), 0);
    assert_eq!(instant_from(Some(0)), 0);
    assert_eq!(instant_from(Some(1_700_000_000_000_000)), 1_700_000_000_000_000);
    assert_eq!(instant_from(Some(u128::from(u64::MAX))), u64::MAX);
    assert_eq!(instant_from(Some(u128::from(u64::MAX) + 1)), u64::MAX);
    assert_eq!(instant_from(Some(u128::MAX)), u64::MAX);
}

#[test]
fn an_instant_after_an_anchor() {
    assert_eq!(instant_after_anchor(5_000, 0), 5_000);
    assert_eq!(instant_after_anchor(5_000, 7), 5_007);
    assert_eq!(instant_after_anchor(0, u128::from(u64::MAX)), u64::MAX);
    assert_eq!(instant_after_anchor(1, u128::from(u64::MAX)), u64::MAX);
    assert_eq!(instant_after_anchor(u64::MAX, 1), u64::MAX);
    assert_eq!(instant_after_anchor(9, u128::MAX), u64::MAX);
}

#[test]
fn a_monotonic_clock_counts_on_from_its_anchor() {
    let clock = Clock::anchored_at(5_000);
    assert_eq!(clock.anchored(), 5_000);
    let mut last = clock.now();
    assert!(last >= 5_000 && last < 5_000 + 1_000_000);
    for _ in 0..1_000 {
        let now = clock.now();
        assert!(now >= last);
        last = now;
    }
    let started = Clock::start();
    let wall = now_micros();
    assert!(started.now() >= started.anchored());
    assert!(started.anchored() <= wall && wall < started.anchored() + 1_000_000);
}

#[test]
fn a_collector_counts_on_from_its_start() {
    let mut m = MetricsCollector::started_at(1_000);
    assert!(m.now() >= 1_000 && m.now() < 1_001_000);
    assert!(m.snapshot().timestamp_us < 1_000_000);
    for _ in 0..50 {
        m.save_snapshot();
    }
    let series = m.get_snapshots();
    for pair in series.windows(2) {
        assert!(pair[0].timestamp_us <= pair[1].timestamp_us);
    }
}
