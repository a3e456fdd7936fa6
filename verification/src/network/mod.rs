//! Packets and the nominal link parameters.

pub mod packet;

pub use packet::{Packet, PacketId, PacketView, Priority};

use vstd::prelude::*;

verus! {

/// Nominal size of every generated packet, in bytes.
pub const PACKET_SIZE_BYTES: u32 = 1500;

/// Bits on the wire for one nominal packet.
pub const PACKET_BITS: u64 = 12_000;

/// Nominal parameters of one link.
#[derive(Debug, Clone, Copy, PartialEq, Eq, Structural)]
pub struct NetworkConfig {
    pub bandwidth_bps: u64,
    pub latency_ms: u64,
    pub buffer_size: usize,
}

impl Default for NetworkConfig {
    /// 100 Mbps, 5 ms, room for 1024 packets.
    fn default() -> (config: Self)
        ensures
            config.bandwidth_bps == 100_000_000,
            config.latency_ms == 5,
            config.buffer_size == 1024,
    {
        NetworkConfig { bandwidth_bps: 100_000_000, latency_ms: 5, buffer_size: 1024 }
    }
}

} // verus!
