use vstd::prelude::*;
use crate::config::RATE_LIMIT_MICROS;

verus! {

/// The state the policy carries from one rescale cycle to the next: two
/// exponentially smoothed, unit-less rates in micro-units (1_000_000 = 1.0).
#[derive(Clone, Copy, Debug, PartialEq, Eq, Structural)]
pub struct PolicyState {
    /// Smoothed fraction of the interval spent handling calls; at most 1.0
    /// under normal load, pushed towards the force sentinel (10.0) when a
    /// cycle carries a force-spin-up signal.
    pub activity_micros: u64,
    /// Smoothed caller-side waiting rate.
    pub waiting_micros: u64,
}

impl PolicyState {
    /// Both rates stay under the finiteness guard.
    pub open spec fn valid(self) -> bool {
        &&& self.activity_micros <= RATE_LIMIT_MICROS
        &&& self.waiting_micros <= RATE_LIMIT_MICROS
    }

    /// The zero state used on the first cycle for a function, when no record
    /// has been persisted yet.
    pub fn initial() -> (r: PolicyState)
        ensures
            r.activity_micros == 0,
            r.waiting_micros == 0,
            r.valid(),
    {
        PolicyState { activity_micros: 0, waiting_micros: 0 }
    }

    /// Runtime check of `valid`, for callers whose stored record comes from
    /// unverified input.
    pub fn is_valid(&self) -> (r: bool)
        ensures
            r == self.valid(),
    {
        self.activity_micros <= RATE_LIMIT_MICROS && self.waiting_micros <= RATE_LIMIT_MICROS
    }
}

/// Why a rescale call was rejected.
#[derive(Clone, Copy, Debug, PartialEq, Eq, Structural)]
pub enum PolicyError {
    /// No resource sizing was supplied: the policy cannot price either mode.
    MissingSizing,
    /// The elapsed interval between the two cycle timestamps is not positive.
    InvalidInterval,
}

/// The outcome of one rescale cycle.
#[derive(Clone, Copy, Debug, PartialEq, Eq, Structural)]
pub struct RescaleDecision {
    /// 1 to provision a standing instance, 0 to stay serverless-only.
    pub target_scale: u64,
    /// The state to persist and replay on the next cycle.
    pub new_state: PolicyState,
    /// How many malformed (negative-duration) samples were skipped, reported
    /// for observability.
    pub skipped_samples: usize,
}

} // verus!
