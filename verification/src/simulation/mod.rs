//! The life of a run: which servers and agents to start, when to sample
//! the counters, and how to stop.

pub mod config;

pub use config::SimConfig;

use crate::agent::{Agent, TrafficPattern};
use crate::metrics::{metrics_initial, snapshot_of, MetricsCollector, MetricsView};
use crate::server::{Server, ServerView};
use crate::strategies::builtin::{builtin_initial, BuiltinStrategy};
use crate::strategies::registry::{builtin_names, StrategyRegistry};
use crate::strategies::Strategy;
use crate::text::{decimal, lowercase_of, lowercased, push_decimal};
use vstd::prelude::*;
use vstd::string::StringExecFns;

verus! {

/// Port of the first server; server `i` listens on this plus `i`.
pub const BASE_PORT: u64 = 5000;

/// Wait between two looks at the count of ready servers, in milliseconds.
pub const READY_POLL_MS: u64 = 10;

/// Wait after the last server is ready, in milliseconds.
pub const SETTLE_MS: u64 = 100;

/// Time between two snapshots, in milliseconds.
pub const SAMPLE_PERIOD_MS: u64 = 1000;

/// Longest wait for a task to end after the run was cancelled, in
/// milliseconds.
pub const JOIN_TIMEOUT_MS: u64 = 2000;

/// Wait for the ports to be released at the end, in milliseconds.
pub const RELEASE_MS: u64 = 500;

/// Where a run stands.
#[derive(Debug, Clone, Copy, PartialEq, Eq, Structural)]
pub enum Phase {
    Created,
    /// Server `next` is being started; those before it have been.
    StartingServers { next: u32 },
    /// All servers were started; not all have reported ready.
    AwaitingServers,
    /// All servers are ready; the settle delay runs.
    Settling,
    /// Agent `next` is being started; those before it have been.
    StartingAgents { next: u32 },
    /// `taken` snapshots were saved; the next tick is awaited.
    Sampling { taken: u64 },
    /// The run was cancelled; `joined` tasks have been waited for, agents
    /// first.
    Stopping { joined: u64 },
    /// All tasks were waited for; the release delay runs.
    Releasing,
    /// The results are being saved.
    Saving,
    Finished,
    /// The run could not start: the policy's name is not known.
    Failed,
}

/// What the outside reports to a run.
#[derive(Debug, Clone, Copy, PartialEq, Eq, Structural)]
pub enum Signal {
    /// The run is to begin.
    Start,
    /// What was asked for last has been done.
    Done,
    /// So many servers have reported ready.
    Ready { count: u32 },
}

/// What a run asks of the outside next.
#[derive(Debug, Clone, Copy, PartialEq, Eq, Structural)]
pub enum Directive {
    /// Start the server of this index on this port.
    SpawnServer { index: u32, port: u64 },
    /// Read the count of ready servers after so many milliseconds.
    PollReady { after_ms: u64 },
    /// Wait so many milliseconds.
    Sleep { millis: u64 },
    /// Start the agent of this index with this pattern.
    SpawnAgent { index: u32, pattern: TrafficPattern },
    /// Wait for the next tick of the sampling clock.
    AwaitTick { period_ms: u64 },
    /// Cancel all tasks.
    Cancel,
    /// Wait for the task of the agent of this index to end.
    JoinAgent { index: u32, timeout_ms: u64 },
    /// Wait for the task of the server of this index to end.
    JoinServer { index: u32, timeout_ms: u64 },
    /// Write the results out.
    SaveResults,
    /// Nothing is left to do.
    Finish,
    /// Give up: the policy of the configured name does not exist.
    UnknownStrategy,
    /// The signal was not expected in this phase; it is ignored.
    Ignore,
}

/// The numbers of a configuration that the course of a run depends on.
pub struct Plan {
    pub num_agents: u32,
    pub num_servers: u32,
    pub duration_secs: u64,
    pub traffic_pattern: TrafficPattern,
    /// Whether the policy's name is registered.
    pub strategy_known: bool,
}

/// A rate scaled for an agent: by 0.95 for an agent whose id ends in 0, up
/// to 1.04 for one whose id ends in 9, rounded down; capped at the largest
/// number.
pub open spec fn scaled_rate(rate_mpps: u64, agent_id: u32) -> u64 {
    let scaled = rate_mpps * (95 + agent_id % 10) / 100;
    if scaled > u64::MAX {
        u64::MAX
    } else {
        scaled as u64
    }
}

/// The pattern of one agent: peak traffic has both its rates scaled by
/// the agent's factor, other patterns are the same for all agents.
pub open spec fn agent_pattern(pattern: TrafficPattern, agent_id: u32) -> TrafficPattern {
    match pattern {
        TrafficPattern::PeakTraffic { base_rate_mpps, peak_rate_mpps, peak_duration_us } => {
            TrafficPattern::PeakTraffic {
                base_rate_mpps: scaled_rate(base_rate_mpps, agent_id),
                peak_rate_mpps: scaled_rate(peak_rate_mpps, agent_id),
                peak_duration_us,
            }
        },
        other => other,
    }
}

/// Entry into sampling, or past it where the run lasts no second.
pub open spec fn begin_sampling(plan: Plan) -> (Phase, Directive) {
    if plan.duration_secs == 0 {
        (Phase::Stopping { joined: 0 }, Directive::Cancel)
    } else {
        (Phase::Sampling { taken: 0 }, Directive::AwaitTick { period_ms: SAMPLE_PERIOD_MS })
    }
}

/// Entry into the start of the agents, or past it where there is none.
pub open spec fn begin_agents(plan: Plan) -> (Phase, Directive) {
    if plan.num_agents == 0 {
        begin_sampling(plan)
    } else {
        (
            Phase::StartingAgents { next: 0 },
            Directive::SpawnAgent { index: 0, pattern: agent_pattern(plan.traffic_pattern, 0) },
        )
    }
}

/// The phase after a signal, and what the run asks for next.
///
/// A run whose policy is not registered fails at its start, before
/// anything is started. Servers are started one by one; agents only once every server has
/// reported ready and the settle delay is over; then one snapshot per
/// second for the duration; then all tasks are cancelled and waited for,
/// agents first; then the release delay and the saving of the results.
pub open spec fn next_phase(plan: Plan, phase: Phase, signal: Signal) -> (Phase, Directive) {
    match (phase, signal) {
        (Phase::Created, Signal::Start) => {
            if !plan.strategy_known {
                (Phase::Failed, Directive::UnknownStrategy)
            } else if plan.num_servers == 0 {
                (Phase::Settling, Directive::Sleep { millis: SETTLE_MS })
            } else {
                (
                    Phase::StartingServers { next: 0 },
                    Directive::SpawnServer { index: 0, port: BASE_PORT },
                )
            }
        },
        (Phase::StartingServers { next }, Signal::Done) => {
            if next + 1 < plan.num_servers {
                (
                    Phase::StartingServers { next: (next + 1) as u32 },
                    Directive::SpawnServer {
                        index: (next + 1) as u32,
                        port: (BASE_PORT + next + 1) as u64,
                    },
                )
            } else {
                (Phase::AwaitingServers, Directive::PollReady { after_ms: 0 })
            }
        },
        (Phase::AwaitingServers, Signal::Ready { count }) => {
            if count >= plan.num_servers {
                (Phase::Settling, Directive::Sleep { millis: SETTLE_MS })
            } else {
                (Phase::AwaitingServers, Directive::PollReady { after_ms: READY_POLL_MS })
            }
        },
        (Phase::Settling, Signal::Done) => begin_agents(plan),
        (Phase::StartingAgents { next }, Signal::Done) => {
            if next + 1 < plan.num_agents {
                (
                    Phase::StartingAgents { next: (next + 1) as u32 },
                    Directive::SpawnAgent {
                        index: (next + 1) as u32,
                        pattern: agent_pattern(plan.traffic_pattern, (next + 1) as u32),
                    },
                )
            } else {
                begin_sampling(plan)
            }
        },
        (Phase::Sampling { taken }, Signal::Done) => {
            if taken + 1 < plan.duration_secs {
                (
                    Phase::Sampling { taken: (taken + 1) as u64 },
                    Directive::AwaitTick { period_ms: SAMPLE_PERIOD_MS },
                )
            } else {
                (Phase::Stopping { joined: 0 }, Directive::Cancel)
            }
        },
        (Phase::Stopping { joined }, Signal::Done) => {
            if joined < plan.num_agents {
                (
                    Phase::Stopping { joined: (joined + 1) as u64 },
                    Directive::JoinAgent { index: joined as u32, timeout_ms: JOIN_TIMEOUT_MS },
                )
            } else if joined < plan.num_agents + plan.num_servers {
                (
                    Phase::Stopping { joined: (joined + 1) as u64 },
                    Directive::JoinServer {
                        index: (joined - plan.num_agents) as u32,
                        timeout_ms: JOIN_TIMEOUT_MS,
                    },
                )
            } else {
                (Phase::Releasing, Directive::Sleep { millis: RELEASE_MS })
            }
        },
        (Phase::Releasing, Signal::Done) => (Phase::Saving, Directive::SaveResults),
        (Phase::Saving, Signal::Done) => (Phase::Finished, Directive::Finish),
        _ => (phase, Directive::Ignore),
    }
}

/// Whether a signal makes the run save a snapshot: the tick that ends a
/// wait of the sampling phase does.
pub open spec fn takes_snapshot(phase: Phase, signal: Signal) -> bool {
    phase is Sampling && signal is Done
}

/// The endpoint of the server of an index.
pub open spec fn endpoint_text(index: u32) -> Seq<char> {
    "127.0.0.1:"@ + decimal((BASE_PORT + index) as nat)
}

/// The server of an index as it is made at `now` for a configuration
/// whose policy is registered.
pub open spec fn fresh_server(config: SimConfig, index: u32, now: u64) -> ServerView<
    crate::strategies::builtin::BuiltinState,
> {
    ServerView {
        id: index,
        addr: endpoint_text(index),
        buffer_size: config.buffer_size,
        bandwidth_bps: config.bandwidth_bps,
        buffer: Seq::empty(),
        strategy: builtin_initial(
            builtin_names()[lowercase_of(config.strategy_name@)],
            config.buffer_size,
            now,
        ),
        recent_sojourn_times: Seq::empty(),
        update_counter: 0,
        packets_processed: 0,
    }
}

/// A rate scaled for an agent.
pub fn scale_rate(rate_mpps: u64, agent_id: u32) -> (scaled: u64)
    ensures
        scaled == scaled_rate(rate_mpps, agent_id),
{
    let factor: u128 = 95 + (agent_id % 10) as u128;
    assert(rate_mpps * factor <= u64::MAX * 104) by (nonlinear_arith)
        requires
            rate_mpps <= u64::MAX,
            0 <= factor <= 104,
    ;
    let scaled: u128 = (rate_mpps as u128) * factor / 100;
    if scaled > u64::MAX as u128 {
        u64::MAX
    } else {
        scaled as u64
    }
}

/// A run: its configuration, its counters, and where it stands.
pub struct Simulation {
    config: SimConfig,
    pub metrics: MetricsCollector,
    phase: Phase,
}

impl Simulation {
    /// The configuration of the run.
    pub closed spec fn config(&self) -> SimConfig {
        self.config
    }

    /// Where the run stands.
    pub closed spec fn phase(&self) -> Phase {
        self.phase
    }

    /// The counters of the run.
    pub closed spec fn counters(&self) -> MetricsView {
        self.metrics@
    }

    /// What holds of every run between calls.
    pub closed spec fn inv(&self) -> bool {
        self.metrics.inv()
    }

    /// The numbers that the course of the run depends on.
    pub open spec fn plan(&self) -> Plan {
        Plan {
            num_agents: self.config().num_agents,
            num_servers: self.config().num_servers,
            duration_secs: self.config().duration_secs,
            traffic_pattern: self.config().traffic_pattern,
            strategy_known: builtin_names().contains_key(
                lowercase_of(self.config().strategy_name@),
            ),
        }
    }

    /// A run that has not begun, with counters whose clock starts now. The
    /// clock is read here.
    pub fn new(config: SimConfig) -> (simulation: Self)
        ensures
            simulation.inv(),
            simulation.config() == config,
            simulation.phase() == Phase::Created,
            exists|now: u64| simulation.counters() == #[trigger] metrics_initial(now),
    {
        Simulation { config, metrics: MetricsCollector::new(), phase: Phase::Created }
    }

    /// A run that has not begun, with counters whose clock starts at `now`
    /// (microseconds).
    pub fn new_at(config: SimConfig, now: u64) -> (simulation: Self)
        ensures
            simulation.inv(),
            simulation.config() == config,
            simulation.phase() == Phase::Created,
            simulation.counters() == metrics_initial(now),
    {
        Simulation { config, metrics: MetricsCollector::started_at(now), phase: Phase::Created }
    }

    /// The configuration of the run.
    pub fn configuration(&self) -> (config: &SimConfig)
        ensures
            *config == self.config(),
    {
        &self.config
    }

    /// Where the run stands.
    pub fn current_phase(&self) -> (phase: Phase)
        ensures
            phase == self.phase(),
    {
        self.phase
    }

    /// The traffic pattern of the agent of an id.
    pub fn get_traffic_pattern(&self, agent_id: u32) -> (pattern: TrafficPattern)
        ensures
            pattern == agent_pattern(self.config().traffic_pattern, agent_id),
    {
        match self.config.traffic_pattern {
            TrafficPattern::PeakTraffic { base_rate_mpps, peak_rate_mpps, peak_duration_us } => {
                TrafficPattern::PeakTraffic {
                    base_rate_mpps: scale_rate(base_rate_mpps, agent_id),
                    peak_rate_mpps: scale_rate(peak_rate_mpps, agent_id),
                    peak_duration_us,
                }
            },
            other => other,
        }
    }

    /// The endpoint of the server of an index.
    pub fn endpoint(index: u32) -> (addr: String)
        ensures
            addr@ == endpoint_text(index),
    {
        let mut addr = String::from_str("127.0.0.1:");
        push_decimal(&mut addr, BASE_PORT + index as u64);
        addr
    }

    /// The server of an index, with a fresh policy of the configured
    /// name; `None` where no policy has that name. The clock of the run's
    /// counters is read here.
    pub fn make_server(&self, index: u32) -> (server: Option<Server<BuiltinStrategy>>)
        ensures
            server is Some <==> self.plan().strategy_known,
            server matches Some(s) ==> s.inv() && exists|now: u64|
                s@ == #[trigger] fresh_server(self.config(), index, now),
    {
        let now = self.metrics.now();
        self.make_server_at(index, now)
    }

    /// The server of an index, with a fresh policy of the configured name
    /// made at `now` (microseconds); `None` where no policy has that name.
    pub fn make_server_at(&self, index: u32, now: u64) -> (server: Option<Server<BuiltinStrategy>>)
        ensures
            server is Some <==> self.plan().strategy_known,
            server matches Some(s) ==> s.inv() && s@ == fresh_server(self.config(), index, now),
    {
        let registry = StrategyRegistry::new();
        match registry.create_at(self.config.strategy_name.as_str(), self.config.buffer_size, now) {
            Some(strategy) => Some(
                Server::new(
                    index,
                    Simulation::endpoint(index),
                    strategy,
                    self.config.buffer_size,
                    self.config.bandwidth_bps,
                ),
            ),
            None => None,
        }
    }

    /// The endpoints of all servers of the run, by index.
    pub fn server_addrs(&self) -> (addrs: Vec<String>)
        ensures
            addrs@.len() == self.config().num_servers,
            forall|i: int| 0 <= i < addrs@.len() ==> (#[trigger] addrs@[i])@ == endpoint_text(
                i as u32,
            ),
    {
        let mut addrs: Vec<String> = Vec::new();
        let mut i: u32 = 0;
        while i < self.config.num_servers
            invariant
                i <= self.config.num_servers,
                addrs@.len() == i,
                forall|j: int| 0 <= j < addrs@.len() ==> (#[trigger] addrs@[j])@ == endpoint_text(
                    j as u32,
                ),
            decreases self.config.num_servers - i,
        {
            addrs.push(Simulation::endpoint(i));
            i = i + 1;
        }
        addrs
    }

    /// The agent of an index: it sends to all servers of the run, under
    /// its own traffic pattern.
    pub fn make_agent(&self, index: u32) -> (agent: Agent)
        ensures
            agent@.id == index,
            agent@.packet_counter == 0,
            agent@.traffic_pattern == agent_pattern(self.config().traffic_pattern, index),
            agent@.server_addrs.len() == self.config().num_servers,
            forall|i: int|
                0 <= i < agent@.server_addrs.len() ==> #[trigger] agent@.server_addrs[i]
                    == endpoint_text(i as u32),
    {
        let addrs = self.server_addrs();
        let pattern = self.get_traffic_pattern(index);
        Agent::new(index, addrs, pattern)
    }

    /// Takes a signal and says what to do next. A tick of the sampling
    /// clock saves a snapshot first. The clock of the run's counters is
    /// read here.
    pub fn step(&mut self, signal: Signal) -> (directive: Directive)
        requires
            old(self).inv(),
        ensures
            final(self).inv(),
            final(self).config() == old(self).config(),
            (final(self).phase(), directive) == next_phase(
                old(self).plan(),
                old(self).phase(),
                signal,
            ),
            takes_snapshot(old(self).phase(), signal) ==> exists|now: u64|
                final(self).counters() == (MetricsView {
                    snapshots: old(self).counters().snapshots.push(
                        #[trigger] snapshot_of(old(self).counters(), now),
                    ),
                    ..old(self).counters()
                }),
            !takes_snapshot(old(self).phase(), signal) ==> final(self).counters() == old(
                self,
            ).counters(),
    {
        let now = self.metrics.now();
        self.step_at(signal, now)
    }

    /// Takes a signal at `now` (microseconds) and says what to do next. A
    /// tick of the sampling clock saves a snapshot first.
    pub fn step_at(&mut self, signal: Signal, now: u64) -> (directive: Directive)
        requires
            old(self).inv(),
        ensures
            final(self).inv(),
            final(self).config() == old(self).config(),
            (final(self).phase(), directive) == next_phase(
                old(self).plan(),
                old(self).phase(),
                signal,
            ),
            takes_snapshot(old(self).phase(), signal) ==> final(self).counters() == (MetricsView {
                snapshots: old(self).counters().snapshots.push(
                    snapshot_of(old(self).counters(), now),
                ),
                ..old(self).counters()
            }),
            !takes_snapshot(old(self).phase(), signal) ==> final(self).counters() == old(
                self,
            ).counters(),
    {
        let (phase, directive) = match (self.phase, signal) {
            (Phase::Created, Signal::Start) => {
                if !self.strategy_known() {
                    (Phase::Failed, Directive::UnknownStrategy)
                } else if self.config.num_servers == 0 {
                    (Phase::Settling, Directive::Sleep { millis: SETTLE_MS })
                } else {
                    (
                        Phase::StartingServers { next: 0 },
                        Directive::SpawnServer { index: 0, port: BASE_PORT },
                    )
                }
            },
            (Phase::StartingServers { next }, Signal::Done) => {
                if next < u32::MAX && next + 1 < self.config.num_servers {
                    (
                        Phase::StartingServers { next: next + 1 },
                        Directive::SpawnServer {
                            index: next + 1,
                            port: BASE_PORT + next as u64 + 1,
                        },
                    )
                } else {
                    (Phase::AwaitingServers, Directive::PollReady { after_ms: 0 })
                }
            },
            (Phase::AwaitingServers, Signal::Ready { count }) => {
                if count >= self.config.num_servers {
                    (Phase::Settling, Directive::Sleep { millis: SETTLE_MS })
                } else {
                    (Phase::AwaitingServers, Directive::PollReady { after_ms: READY_POLL_MS })
                }
            },
            (Phase::Settling, Signal::Done) => self.enter_agents(),
            (Phase::StartingAgents { next }, Signal::Done) => {
                if next < u32::MAX && next + 1 < self.config.num_agents {
                    (
                        Phase::StartingAgents { next: next + 1 },
                        Directive::SpawnAgent {
                            index: next + 1,
                            pattern: self.get_traffic_pattern(next + 1),
                        },
                    )
                } else {
                    self.enter_sampling()
                }
            },
            (Phase::Sampling { taken }, Signal::Done) => {
                self.metrics.save_snapshot_at(now);
                if taken < u64::MAX && taken + 1 < self.config.duration_secs {
                    (
                        Phase::Sampling { taken: taken + 1 },
                        Directive::AwaitTick { period_ms: SAMPLE_PERIOD_MS },
                    )
                } else {
                    (Phase::Stopping { joined: 0 }, Directive::Cancel)
                }
            },
            (Phase::Stopping { joined }, Signal::Done) => {
                let agents = self.config.num_agents as u64;
                let servers = self.config.num_servers as u64;
                if joined < agents {
                    (
                        Phase::Stopping { joined: joined + 1 },
                        Directive::JoinAgent { index: joined as u32, timeout_ms: JOIN_TIMEOUT_MS },
                    )
                } else if joined < agents + servers {
                    (
                        Phase::Stopping { joined: joined + 1 },
                        Directive::JoinServer {
                            index: (joined - agents) as u32,
                            timeout_ms: JOIN_TIMEOUT_MS,
                        },
                    )
                } else {
                    (Phase::Releasing, Directive::Sleep { millis: RELEASE_MS })
                }
            },
            (Phase::Releasing, Signal::Done) => (Phase::Saving, Directive::SaveResults),
            (Phase::Saving, Signal::Done) => (Phase::Finished, Directive::Finish),
            _ => (self.phase, Directive::Ignore),
        };
        self.phase = phase;
        directive
    }

    /// Whether a policy of the configured name exists.
    pub fn strategy_known(&self) -> (known: bool)
        ensures
            known == self.plan().strategy_known,
    {
        let registry = StrategyRegistry::new();
        let lowered = lowercased(self.config.strategy_name.as_str());
        registry.lookup(lowered.as_str()).is_some()
    }

    /// Entry into sampling, or past it where the run lasts no second.
    fn enter_sampling(&self) -> (next: (Phase, Directive))
        ensures
            next == begin_sampling(self.plan()),
    {
        if self.config.duration_secs == 0 {
            (Phase::Stopping { joined: 0 }, Directive::Cancel)
        } else {
            (Phase::Sampling { taken: 0 }, Directive::AwaitTick { period_ms: SAMPLE_PERIOD_MS })
        }
    }

    /// Entry into the start of the agents, or past it where there is none.
    fn enter_agents(&self) -> (next: (Phase, Directive))
        ensures
            next == begin_agents(self.plan()),
    {
        if self.config.num_agents == 0 {
            self.enter_sampling()
        } else {
            (
                Phase::StartingAgents { next: 0 },
                Directive::SpawnAgent { index: 0, pattern: self.get_traffic_pattern(0) },
            )
        }
    }
}

} // verus!
