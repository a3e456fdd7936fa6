//! FlockNet: active queue management policies, the server queue engine that
//! couples them to a bounded buffer, and the bookkeeping of a benchmark run.
//!
//! All quantities are integers. Instants and durations are microseconds,
//! probabilities are parts per million, packet rates are thousandths of a
//! packet per second.
//!
//! What depends on the time or on chance comes in two forms. The form
//! whose name ends in `_at` takes the instant, and the random draw where
//! there is one, from its caller, and its contract says exactly what it
//! does. The other form reads the clock and draws for itself, calls the
//! first, and promises what holds whatever the clock and the draw were.
//! A run reads the monotonic clock of its counters, which counts on from
//! the wall clock's reading at its start; what stands alone, a packet
//! that is stamped or a policy that is used without a server, reads the
//! wall clock.
//!
//! - `network`: packets and the nominal link parameters.
//! - `strategies`: the policy interface, the built-in policies, and their
//!   registry by name.
//! - `server`: the bounded buffer of a server, its arrivals and its drainer.
//! - `agent`: traffic patterns, packet making, delivery within one process.
//! - `clock`: the wall clock, and the monotonic clock that a run counts on.
//! - `metrics`: the counters of a run, their snapshots and summaries.
//! - `simulation`: configuration and the phases of a run.
//! - `text`: numbers, clock times and names as text.
//! - `prelude`: the names that most users need.

pub mod agent;
pub mod clock;
pub mod metrics;
pub mod network;
pub mod server;
pub mod simulation;
pub mod strategies;
pub mod text;
pub mod prelude;

pub use agent::Agent;
pub use metrics::MetricsCollector;
pub use server::Server;
pub use simulation::{SimConfig, Simulation};
pub use strategies::Strategy;
