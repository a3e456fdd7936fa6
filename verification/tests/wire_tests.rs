use flocknet::network::{Packet, PacketId, Priority};

type Fields = (u64, u32, u32, u32, u32, u128, Vec<u8>);

fn fields(p: &Packet) -> Fields {
    (
        p.id.value(),
        p.source_agent,
        p.destination_server,
        p.payload_size,
        u32::from(p.priority.rank()),
        p.created_at_micros(),
        p.data.clone(),
    )
}

fn packet(f: Fields) -> Packet {
    let priority = Priority::from_rank(u8::try_from(f.4).unwrap()).unwrap();
    Packet::from_parts(PacketId::new(f.0), f.1, f.2, f.3, priority, f.5, f.6)
}

#[test]
fn a_packet_comes_back_equal_from_its_bytes() {
    let sent = Packet::from_parts(
        PacketId::new(u64::MAX - 1),
        77,
        3,
        5,
        Priority::Critical,
        1_700_000_000_123_456,
        vec![1, 2, 3, 4, 5],
    );
    let bytes = bincode::serialize(&fields(&sent)).unwrap();
    assert_eq!(bytes.len(), 8 + 4 + 4 + 4 + 4 + 16 + 8 + 5);
    let back = packet(bincode::deserialize::<Fields>(&bytes).unwrap());
    assert_eq!(fields(&back), fields(&sent));
    assert_eq!(back.created_at_micros(), 1_700_000_000_123_456);
    assert_eq!(back.priority, Priority::Critical);
}

#[test]
fn every_priority_comes_back_from_its_bytes() {
    for priority in [Priority::Low, Priority::Normal, Priority::High, Priority::Critical] {
        let sent = Packet::new_at(PacketId::new(9), 1, 2, 1500, priority, 1_700_000_000_000_000);
        let bytes = bincode::serialize(&fields(&sent)).unwrap();
        let back = packet(bincode::deserialize::<Fields>(&bytes).unwrap());
        assert_eq!(back.priority, priority);
        assert_eq!(fields(&back), fields(&sent));
    }
}

#[test]
fn both_serialisers_write_the_same_bytes() {
    let p = Packet::new_at(PacketId::new(3), 4, 5, 64, Priority::High, 1_700_000_000_000_001);
    let f = fields(&p);
    let mut bytes = wincode::serialize(&f.0).unwrap();
    bytes.extend(wincode::serialize(&f.1).unwrap());
    bytes.extend(wincode::serialize(&f.2).unwrap());
    bytes.extend(wincode::serialize(&f.3).unwrap());
    bytes.extend(wincode::serialize(&f.4).unwrap());
    bytes.extend(wincode::serialize(&f.5).unwrap());
    bytes.extend(wincode::serialize(&f.6).unwrap());
    assert_eq!(bytes, bincode::serialize(&f).unwrap());
    assert_eq!(fields(&packet(bincode::deserialize::<Fields>(&bytes).unwrap())), f);
}
