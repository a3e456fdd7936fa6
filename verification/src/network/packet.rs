//! The unit of work that agents emit and servers queue.

use crate::clock::now_micros;
use vstd::prelude::*;

verus! {

/// Earliest creation timestamp taken to be a real clock reading
/// (microseconds since the epoch; early September 2001).
pub const MIN_VALID_TIMESTAMP_MICROS: u128 = 1_000_000_000_000_000;

/// Longest sojourn that is reported, in microseconds (30 s).
pub const MAX_SOJOURN_MICROS: u64 = 30_000_000;

/// Identifier of a packet, unique per agent.
#[derive(Debug, Clone, Copy, PartialEq, Eq, Hash, Structural)]
pub struct PacketId(u64);

impl View for PacketId {
    type V = u64;

    closed spec fn view(&self) -> u64 {
        self.0
    }
}

impl PacketId {
    pub fn new(id: u64) -> (packet_id: Self)
        ensures
            packet_id@ == id,
    {
        PacketId(id)
    }

    /// The number this identifier was made from.
    pub fn value(&self) -> (id: u64)
        ensures
            id == self@,
    {
        self.0
    }
}

/// Scheduling priority, ordered from `Low` to `Critical`.
#[derive(Debug, Clone, Copy, PartialEq, Eq, PartialOrd, Ord, Structural)]
pub enum Priority {
    Low,
    Normal,
    High,
    Critical,
}

impl Priority {
    /// Position in the order: 0 for `Low` up to 3 for `Critical`.
    pub open spec fn rank_spec(self) -> u8 {
        match self {
            Priority::Low => 0,
            Priority::Normal => 1,
            Priority::High => 2,
            Priority::Critical => 3,
        }
    }

    /// Position in the order: 0 for `Low` up to 3 for `Critical`.
    pub fn rank(&self) -> (r: u8)
        ensures
            r == self.rank_spec(),
            r <= 3,
    {
        match self {
            Priority::Low => 0,
            Priority::Normal => 1,
            Priority::High => 2,
            Priority::Critical => 3,
        }
    }

    /// The priority at a position of the order, if there is one.
    pub fn from_rank(r: u8) -> (p: Option<Priority>)
        ensures
            r <= 3 <==> p is Some,
            p matches Some(q) ==> q.rank_spec() == r,
    {
        if r == 0 {
            Some(Priority::Low)
        } else if r == 1 {
            Some(Priority::Normal)
        } else if r == 2 {
            Some(Priority::High)
        } else if r == 3 {
            Some(Priority::Critical)
        } else {
            None
        }
    }
}

impl Default for Priority {
    fn default() -> (p: Self)
        ensures
            p == Priority::Normal,
    {
        Priority::Normal
    }
}

/// The ranks order the priorities totally: distinct priorities have
/// distinct ranks.
pub proof fn lemma_priority_rank_injective(a: Priority, b: Priority)
    ensures
        a.rank_spec() == b.rank_spec() <==> a == b,
{
}

/// What a packet holds, as plain values.
pub struct PacketView {
    pub id: u64,
    pub source_agent: u32,
    pub destination_server: u32,
    pub payload_size: u32,
    pub priority: Priority,
    pub created_at_micros: u128,
    pub data: Seq<u8>,
}

/// A packet. Its creation timestamp is fixed when it is made.
#[derive(Debug)]
pub struct Packet {
    pub id: PacketId,
    pub source_agent: u32,
    pub destination_server: u32,
    pub payload_size: u32,
    pub priority: Priority,
    created_at_micros: u128,
    pub data: Vec<u8>,
}

impl View for Packet {
    type V = PacketView;

    closed spec fn view(&self) -> PacketView {
        PacketView {
            id: self.id@,
            source_agent: self.source_agent,
            destination_server: self.destination_server,
            payload_size: self.payload_size,
            priority: self.priority,
            created_at_micros: self.created_at_micros,
            data: self.data@,
        }
    }
}

/// The sojourn reported at `now` for a packet created at `created`: the
/// elapsed time, or zero where the timestamp is no clock reading or the
/// elapsed time is more than 30 s.
pub open spec fn sojourn_micros(created: u128, now: u128) -> u64 {
    if created < MIN_VALID_TIMESTAMP_MICROS {
        0
    } else if now <= created {
        0
    } else if now - created > MAX_SOJOURN_MICROS {
        0
    } else {
        (now - created) as u64
    }
}

/// A packet with a payload of `size` zero bytes.
pub open spec fn zero_packet(
    id: u64,
    source: u32,
    dest: u32,
    size: u32,
    priority: Priority,
    created_at_micros: u128,
) -> PacketView {
    PacketView {
        id,
        source_agent: source,
        destination_server: dest,
        payload_size: size,
        priority,
        created_at_micros,
        data: Seq::new(size as nat, |i: int| 0u8),
    }
}

impl Packet {
    /// A packet of `size` zero bytes, stamped with the time. The clock is
    /// read here.
    pub fn new(id: PacketId, source: u32, dest: u32, size: u32, priority: Priority) -> (packet:
        Self)
        ensures
            exists|created_at_micros: u128|
                packet@ == #[trigger] zero_packet(
                    id@,
                    source,
                    dest,
                    size,
                    priority,
                    created_at_micros,
                ),
    {
        Packet::new_at(id, source, dest, size, priority, now_micros() as u128)
    }

    /// A packet of `size` zero bytes, stamped with `created_at_micros`
    /// (microseconds since the epoch).
    pub fn new_at(
        id: PacketId,
        source: u32,
        dest: u32,
        size: u32,
        priority: Priority,
        created_at_micros: u128,
    ) -> (packet: Self)
        ensures
            packet@ == zero_packet(id@, source, dest, size, priority, created_at_micros),
    {
        let mut data: Vec<u8> = Vec::new();
        let mut filled: u32 = 0;
        while filled < size
            invariant
                filled <= size,
                data@ =~= Seq::new(filled as nat, |i: int| 0u8),
            decreases size - filled,
        {
            data.push(0u8);
            filled = filled + 1;
        }
        Packet {
            id,
            source_agent: source,
            destination_server: dest,
            payload_size: size,
            priority,
            created_at_micros,
            data,
        }
    }

    /// A packet with the given payload, stamped with `created_at_micros`.
    pub fn from_parts(
        id: PacketId,
        source: u32,
        dest: u32,
        size: u32,
        priority: Priority,
        created_at_micros: u128,
        data: Vec<u8>,
    ) -> (packet: Self)
        ensures
            packet@ == (PacketView {
                id: id@,
                source_agent: source,
                destination_server: dest,
                payload_size: size,
                priority,
                created_at_micros,
                data: data@,
            }),
    {
        Packet {
            id,
            source_agent: source,
            destination_server: dest,
            payload_size: size,
            priority,
            created_at_micros,
            data,
        }
    }

    /// The agent that sent the packet.
    pub fn source(&self) -> (agent: u32)
        ensures
            agent == self@.source_agent,
    {
        self.source_agent
    }

    /// When the packet was made, in microseconds since the epoch.
    pub fn created_at_micros(&self) -> (t: u128)
        ensures
            t == self@.created_at_micros,
    {
        self.created_at_micros
    }

    /// Time the packet has spent in the system, in microseconds. The
    /// clock is read here.
    pub fn sojourn_time(&self) -> (micros: u64)
        ensures
            exists|now: u128| micros == #[trigger] sojourn_micros(self@.created_at_micros, now),
            micros <= MAX_SOJOURN_MICROS,
    {
        self.sojourn_at(now_micros() as u128)
    }

    /// Time the packet has spent in the system at `now_micros`, in
    /// microseconds.
    pub fn sojourn_at(&self, now_micros: u128) -> (micros: u64)
        ensures
            micros == sojourn_micros(self@.created_at_micros, now_micros),
            micros <= MAX_SOJOURN_MICROS,
    {
        if self.created_at_micros < MIN_VALID_TIMESTAMP_MICROS {
            return 0;
        }
        if now_micros <= self.created_at_micros {
            return 0;
        }
        let elapsed: u128 = now_micros - self.created_at_micros;
        if elapsed > 30_000_000 {
            return 0;
        }
        elapsed as u64
    }
}

impl Clone for Packet {
    fn clone(&self) -> (copy: Self)
        ensures
            copy@ == self@,
    {
        Packet {
            id: self.id,
            source_agent: self.source_agent,
            destination_server: self.destination_server,
            payload_size: self.payload_size,
            priority: self.priority,
            created_at_micros: self.created_at_micros,
            data: self.data.clone(),
        }
    }
}

} // verus!
