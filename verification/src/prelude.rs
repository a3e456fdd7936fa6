//! The names that most users of the library need.

pub use crate::agent::Agent;
pub use crate::metrics::MetricsSnapshot;
pub use crate::network::Packet;
pub use crate::server::Server;
pub use crate::simulation::{SimConfig, Simulation};
pub use crate::strategies::{Strategy, StrategyRegistry};
