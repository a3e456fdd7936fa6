//! What a run is made from.

use crate::agent::TrafficPattern;
use vstd::prelude::*;

verus! {

/// The parameters of one run.
#[derive(Debug)]
pub struct SimConfig {
    pub name: String,
    pub strategy_name: String,
    pub num_agents: u32,
    pub num_servers: u32,
    /// Seconds that the run is sampled for.
    pub duration_secs: u64,
    pub buffer_size: usize,
    pub bandwidth_bps: u64,
    pub traffic_pattern: TrafficPattern,
}

impl Default for SimConfig {
    /// 64 agents at 100 packets per second against 4 tail-drop servers of
    /// 1024 packets and 100 Mbps, for a minute.
    fn default() -> (config: Self)
        ensures
            config.name@ == "default_sim"@,
            config.strategy_name@ == "drop-tail"@,
            config.num_agents == 64,
            config.num_servers == 4,
            config.duration_secs == 60,
            config.buffer_size == 1024,
            config.bandwidth_bps == 100_000_000,
            config.traffic_pattern == (TrafficPattern::Constant { rate_mpps: 100_000 }),
    {
        SimConfig {
            name: "default_sim".to_owned(),
            strategy_name: "drop-tail".to_owned(),
            num_agents: 64,
            num_servers: 4,
            duration_secs: 60,
            buffer_size: 1024,
            bandwidth_bps: 100_000_000,
            traffic_pattern: TrafficPattern::Constant { rate_mpps: 100_000 },
        }
    }
}

impl SimConfig {
    /// The same run under another policy.
    pub fn with_strategy(self, strategy: String) -> (config: Self)
        ensures
            config.strategy_name@ == strategy@,
            config.name@ == self.name@,
            config.num_agents == self.num_agents,
            config.num_servers == self.num_servers,
            config.duration_secs == self.duration_secs,
            config.buffer_size == self.buffer_size,
            config.bandwidth_bps == self.bandwidth_bps,
            config.traffic_pattern == self.traffic_pattern,
    {
        let mut config = self;
        config.strategy_name = strategy;
        config
    }

    /// The same run under peak traffic: `peak_mpps` for the first
    /// `duration_us` microseconds, `base_mpps` after them (rates in
    /// thousandths of a packet per second).
    pub fn with_peak_traffic(self, base_mpps: u64, peak_mpps: u64, duration_us: u64) -> (config:
        Self)
        ensures
            config.traffic_pattern == (TrafficPattern::PeakTraffic {
                base_rate_mpps: base_mpps,
                peak_rate_mpps: peak_mpps,
                peak_duration_us: duration_us,
            }),
            config.name@ == self.name@,
            config.strategy_name@ == self.strategy_name@,
            config.num_agents == self.num_agents,
            config.num_servers == self.num_servers,
            config.duration_secs == self.duration_secs,
            config.buffer_size == self.buffer_size,
            config.bandwidth_bps == self.bandwidth_bps,
    {
        let mut config = self;
        config.traffic_pattern = TrafficPattern::PeakTraffic {
            base_rate_mpps: base_mpps,
            peak_rate_mpps: peak_mpps,
            peak_duration_us: duration_us,
        };
        config
    }
}

} // verus!
