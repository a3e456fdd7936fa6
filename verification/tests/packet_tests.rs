use flocknet::network::packet::{MAX_SOJOURN_MICROS, MIN_VALID_TIMESTAMP_MICROS};
use flocknet::network::{NetworkConfig, Packet, PacketId, Priority, PACKET_BITS, PACKET_SIZE_BYTES};

const T0: u128 = 1_700_000_000_000_000;

fn packet_at(created: u128) -> Packet {
    Packet::new_at(PacketId::new(7), 3, 1, 1500, Priority::Normal, created)
}

#[test]
fn new_packet_keeps_its_fields_and_has_a_zero_payload() {
    let p = Packet::new_at(PacketId::new(42), 9, 2, 1500, Priority::High, T0);
    assert_eq!(p.id.value(), 42);
    assert_eq!(p.source_agent, 9);
    assert_eq!(p.source(), 9);
    assert_eq!(p.destination_server, 2);
    assert_eq!(p.payload_size, 1500);
    assert_eq!(p.priority, Priority::High);
    assert_eq!(p.created_at_micros(), T0);
    assert_eq!(p.data.len(), 1500);
    assert!(p.data.iter().all(|b| *b == 0));
}

#[test]
fn empty_packet_has_no_payload() {
    let p = Packet::new_at(PacketId::new(0), 0, 0, 0, Priority::Low, T0);
    assert!(p.data.is_empty());
}

#[test]
fn from_parts_keeps_the_payload() {
    let p = Packet::from_parts(PacketId::new(1), 2, 3, 4, Priority::Critical, T0, vec![9, 8, 7, 6]);
    assert_eq!(p.data, vec![9, 8, 7, 6]);
    assert_eq!(p.payload_size, 4);
    assert_eq!(p.priority, Priority::Critical);
    assert_eq!(p.created_at_micros(), T0);
}

#[test]
fn clone_is_equal_field_by_field() {
    let p = Packet::from_parts(PacketId::new(5), 6, 7, 3, Priority::Low, T0 + 1, vec![1, 2, 3]);
    let q = p.clone();
    assert_eq!(q.id, p.id);
    assert_eq!(q.source_agent, p.source_agent);
    assert_eq!(q.destination_server, p.destination_server);
    assert_eq!(q.payload_size, p.payload_size);
    assert_eq!(q.priority, p.priority);
    assert_eq!(q.created_at_micros(), p.created_at_micros());
    assert_eq!(q.data, p.data);
}

#[test]
fn sojourn_is_the_elapsed_time() {
    assert_eq!(packet_at(T0).sojourn_at(T0 + 4_000), 4_000);
    assert_eq!(packet_at(T0).sojourn_at(T0 + 1), 1);
}

#[test]
fn sojourn_is_zero_at_and_before_creation() {
    assert_eq!(packet_at(T0).sojourn_at(T0), 0);
    assert_eq!(packet_at(T0).sojourn_at(T0 - 5), 0);
}

#[test]
fn sojourn_of_thirty_seconds_is_reported_and_more_is_not() {
    assert_eq!(MAX_SOJOURN_MICROS, 30_000_000);
    assert_eq!(packet_at(T0).sojourn_at(T0 + 30_000_000), 30_000_000);
    assert_eq!(packet_at(T0).sojourn_at(T0 + 30_000_001), 0);
    assert_eq!(packet_at(T0).sojourn_at(u128::MAX), 0);
}

#[test]
fn sojourn_is_zero_for_a_timestamp_that_is_no_clock_reading() {
    assert_eq!(MIN_VALID_TIMESTAMP_MICROS, 1_000_000_000_000_000);
    assert_eq!(packet_at(999_999_999_999_999).sojourn_at(1_000_000_000_000_500), 0);
    assert_eq!(packet_at(0).sojourn_at(10), 0);
    assert_eq!(packet_at(1_000_000_000_000_000).sojourn_at(1_000_000_000_000_500), 500);
}

#[test]
fn priorities_are_totally_ordered() {
    assert!(Priority::Low < Priority::Normal);
    assert!(Priority::Normal < Priority::High);
    assert!(Priority::High < Priority::Critical);
    assert_eq!(Priority::Low.rank(), 0);
    assert_eq!(Priority::Normal.rank(), 1);
    assert_eq!(Priority::High.rank(), 2);
    assert_eq!(Priority::Critical.rank(), 3);
}

#[test]
fn priority_from_rank_inverts_rank() {
    for r in 0..4u8 {
        assert_eq!(Priority::from_rank(r).unwrap().rank(), r);
    }
    assert_eq!(Priority::from_rank(4), None);
    assert_eq!(Priority::from_rank(255), None);
}

#[test]
fn default_priority_is_normal() {
    assert_eq!(Priority::default(), Priority::Normal);
}

#[test]
fn packet_id_keeps_its_number() {
    assert_eq!(PacketId::new(0).value(), 0);
    assert_eq!(PacketId::new(u64::MAX).value(), u64::MAX);
    assert_eq!(PacketId::new(3), PacketId::new(3));
    assert_ne!(PacketId::new(3), PacketId::new(4));
}

#[test]
fn default_network_config() {
    let c = NetworkConfig::default();
    assert_eq!(c.bandwidth_bps, 100_000_000);
    assert_eq!(c.latency_ms, 5);
    assert_eq!(c.buffer_size, 1024);
    assert_eq!(PACKET_SIZE_BYTES, 1500);
    assert_eq!(PACKET_BITS, 12_000);
}
