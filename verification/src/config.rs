use vstd::prelude::*;

verus! {

/// Fixed-point scale shared by the smoothing factor and the rate estimates:
/// 1_000_000 micro-units stand for 1.0.
pub const MICROS_PER_UNIT: u64 = 1_000_000;

/// Cap on the raw (non-forced) activity rate: a single-threaded measure of the
/// fraction of the interval spent active cannot exceed full utilization, so
/// values above 1.0 (parallelism artifacts) are clamped.
pub const ACTIVITY_CAP_MICROS: u64 = 1_000_000;

/// Sentinel raw activity (10.0) used when a batch carries a force-spin-up
/// signal; large enough that repeated forcing drives the moving average across
/// the cost threshold.
pub const FORCE_ACTIVITY_MICROS: u64 = 10_000_000;

/// Floor (0.001 s) on the active time attributed to a single sample after the
/// per-call overhead is subtracted.
pub const ACTIVE_FLOOR_MICROS: u64 = 1_000;

/// Finiteness guard on the smoothed rates: raw rates are saturated here
/// (1_000_000 times full utilization) so every state value stays representable.
pub const RATE_LIMIT_MICROS: u64 = 1_000_000_000_000;

/// Upper bound on a memory allocation in MB accepted by the comparator.
pub const MEM_LIMIT_MB: u64 = 1_000_000_000;

/// Upper bound on a price in 10^-10 dollars (10^12 is 100 dollars).
pub const PRICE_LIMIT_E10: u64 = 1_000_000_000_000;

/// Upper bound on a configured duration in microseconds.
pub const DURATION_LIMIT_MICROS: u64 = 1_000_000_000_000;

/// The tunable constants of the policy.
///
/// Durations are microseconds, the smoothing factor is in micro-units, and
/// prices are in 10^-10 dollars.
#[derive(Clone, Copy, Debug, PartialEq, Eq, Structural)]
pub struct PolicyConfig {
    /// Weight of the newest observation in the moving average (0.25 by default).
    pub smoothing_micros: u64,
    /// Durations strictly below this are out-of-band force-spin-up signals,
    /// not real work (0.0001 s by default).
    pub force_threshold_micros: u64,
    /// Fixed per-call processing overhead subtracted from active time
    /// (0.007 s by default).
    pub min_overhead_micros: u64,
    /// Fixed caller-side waiting cost charged per serverless call
    /// (0.020 s by default).
    pub max_overhead_micros: u64,
    /// Hourly price of one provisioned vCPU (0.015 dollars by default).
    pub base_price_e10: u64,
    /// Per-second-per-GB price shared by serverless compute and caller waiting
    /// (0.0000166667 dollars by default).
    pub unit_price_e10: u64,
}

impl PolicyConfig {
    /// Bounds under which every cycle computation fits the machine integers.
    pub open spec fn valid(self) -> bool {
        &&& 0 < self.smoothing_micros <= MICROS_PER_UNIT
        &&& self.force_threshold_micros <= DURATION_LIMIT_MICROS
        &&& self.min_overhead_micros <= DURATION_LIMIT_MICROS
        &&& self.max_overhead_micros <= DURATION_LIMIT_MICROS
        &&& self.base_price_e10 <= PRICE_LIMIT_E10
        &&& self.unit_price_e10 <= PRICE_LIMIT_E10
    }

    /// The default parameterization.
    pub open spec fn default_spec() -> PolicyConfig {
        PolicyConfig {
            smoothing_micros: 250_000,
            force_threshold_micros: 100,
            min_overhead_micros: 7_000,
            max_overhead_micros: 20_000,
            base_price_e10: 150_000_000,
            unit_price_e10: 166_667,
        }
    }

    /// Build the default configuration.
    pub fn default_config() -> (r: PolicyConfig)
        ensures
            r == PolicyConfig::default_spec(),
            r.valid(),
    {
        PolicyConfig {
            smoothing_micros: 250_000,
            force_threshold_micros: 100,
            min_overhead_micros: 7_000,
            max_overhead_micros: 20_000,
            base_price_e10: 150_000_000,
            unit_price_e10: 166_667,
        }
    }

    /// Runtime check of `valid`, for callers whose configuration comes from
    /// unverified input.
    pub fn is_valid(&self) -> (r: bool)
        ensures
            r == self.valid(),
    {
        0 < self.smoothing_micros && self.smoothing_micros <= MICROS_PER_UNIT
            && self.force_threshold_micros <= DURATION_LIMIT_MICROS
            && self.min_overhead_micros <= DURATION_LIMIT_MICROS
            && self.max_overhead_micros <= DURATION_LIMIT_MICROS
            && self.base_price_e10 <= PRICE_LIMIT_E10
            && self.unit_price_e10 <= PRICE_LIMIT_E10
    }
}

/// Per-function resource sizing, read from the deployment registry by the
/// caller: all three allocations are in MB.
#[derive(Clone, Copy, Debug, PartialEq, Eq, Structural)]
pub struct ResourceSizing {
    /// Memory of the provisioned instance; 2048 MB stand for one vCPU.
    pub provisioned_mem_mb: u64,
    /// Memory allocation of the serverless function.
    pub function_mem_mb: u64,
    /// Caller-side memory held while waiting on a serverless invocation.
    pub caller_mem_mb: u64,
}

impl ResourceSizing {
    /// Bounds under which the cost comparison fits the machine integers.
    pub open spec fn valid(self) -> bool {
        &&& self.provisioned_mem_mb <= MEM_LIMIT_MB
        &&& self.function_mem_mb <= MEM_LIMIT_MB
        &&& self.caller_mem_mb <= MEM_LIMIT_MB
    }

    /// Runtime check of `valid`, for callers whose sizing record comes from
    /// unverified input.
    pub fn is_valid(&self) -> (r: bool)
        ensures
            r == self.valid(),
    {
        self.provisioned_mem_mb <= MEM_LIMIT_MB && self.function_mem_mb <= MEM_LIMIT_MB
            && self.caller_mem_mb <= MEM_LIMIT_MB
    }
}

} // verus!
