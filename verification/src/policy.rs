use vstd::prelude::*;
use vstd::arithmetic::div_mod::lemma_div_is_ordered;
use crate::aggregate::{aggregate_samples, force_of, skipped_of, total_active_of, total_waiting_of};
use crate::compare::{blended_cost_spec, compare_costs, decision_spec};
use crate::config::{PolicyConfig, ResourceSizing};
use crate::estimate::{ema_spec, estimate, raw_activity_spec, raw_waiting_spec, lemma_smooth_monotone};
use crate::state::{PolicyError, PolicyState, RescaleDecision};

verus! {

/// The zero state assumed for a function on its first cycle.
pub open spec fn zero_state() -> PolicyState {
    PolicyState { activity_micros: 0, waiting_micros: 0 }
}

/// A missing persisted record is not an error: it stands for the zero state.
pub open spec fn previous_or_zero(prev: Option<PolicyState>) -> PolicyState {
    match prev {
        Option::Some(p) => p,
        Option::None => zero_state(),
    }
}

/// The smoothed activity after one cycle: the batch is reduced, the raw rate
/// for the elapsed interval is formed (sentinel under force, clamped to 1.0
/// otherwise), and the moving average moves towards it.
pub open spec fn next_activity_spec(
    cfg: PolicyConfig,
    prev: PolicyState,
    samples: Seq<i64>,
    t: int,
) -> int {
    ema_spec(
        cfg.smoothing_micros as int,
        prev.activity_micros as int,
        raw_activity_spec(cfg, total_active_of(cfg, samples), t, force_of(cfg, samples)),
    )
}

/// The smoothed caller-waiting rate after one cycle.
pub open spec fn next_waiting_spec(
    cfg: PolicyConfig,
    prev: PolicyState,
    samples: Seq<i64>,
    t: int,
) -> int {
    ema_spec(
        cfg.smoothing_micros as int,
        prev.waiting_micros as int,
        raw_waiting_spec(total_waiting_of(cfg, samples), t),
    )
}

/// The scale target of one whole cycle.
pub open spec fn cycle_scale_spec(
    cfg: PolicyConfig,
    sizing: ResourceSizing,
    prev: PolicyState,
    samples: Seq<i64>,
    t: int,
) -> int {
    decision_spec(
        cfg,
        sizing,
        next_activity_spec(cfg, prev, samples, t),
        next_waiting_spec(cfg, prev, samples, t),
    )
}

/// The scale target of a cycle whose batch reduced to the given totals.
pub open spec fn scale_from_totals_spec(
    cfg: PolicyConfig,
    sizing: ResourceSizing,
    prev: PolicyState,
    total_active: int,
    total_waiting: int,
    force: bool,
    t: int,
) -> int {
    decision_spec(
        cfg,
        sizing,
        ema_spec(
            cfg.smoothing_micros as int,
            prev.activity_micros as int,
            raw_activity_spec(cfg, total_active, t, force),
        ),
        ema_spec(
            cfg.smoothing_micros as int,
            prev.waiting_micros as int,
            raw_waiting_spec(total_waiting, t),
        ),
    )
}

/// Monotonicity of the decision: with the resource sizing, the interval and
/// the previous state held fixed, more total active time in the batch never
/// lowers the scale target; neither does more waiting time, nor a force
/// signal where there was none.
pub proof fn lemma_scale_monotone_in_totals(
    cfg: PolicyConfig,
    sizing: ResourceSizing,
    prev: PolicyState,
    total_active1: int,
    total_active2: int,
    total_waiting1: int,
    total_waiting2: int,
    force1: bool,
    force2: bool,
    t: int,
)
    requires
        cfg.valid(),
        t > 0,
        0 <= total_active1 <= total_active2,
        0 <= total_waiting1 <= total_waiting2,
        force1 ==> force2,
    ensures
        scale_from_totals_spec(cfg, sizing, prev, total_active1, total_waiting1, force1, t)
            <= scale_from_totals_spec(cfg, sizing, prev, total_active2, total_waiting2, force2, t),
{
    let r1 = raw_activity_spec(cfg, total_active1, t, force1);
    let r2 = raw_activity_spec(cfg, total_active2, t, force2);
    if !force1 {
        lemma_div_is_ordered(total_active1, total_active2, t);
    }
    // A non-forced raw rate is clamped to 1.0, below the 10.0 sentinel, so a
    // force signal can only raise it.
    assert(r1 <= r2);
    let v1 = raw_waiting_spec(total_waiting1, t);
    let v2 = raw_waiting_spec(total_waiting2, t);
    lemma_div_is_ordered(total_waiting1, total_waiting2, t);
    assert(v1 <= v2);
    let alpha = cfg.smoothing_micros as int;
    lemma_smooth_monotone(alpha, prev.activity_micros as int, r1, r2);
    lemma_smooth_monotone(alpha, prev.waiting_micros as int, v1, v2);
    let a1 = ema_spec(alpha, prev.activity_micros as int, r1);
    let a2 = ema_spec(alpha, prev.activity_micros as int, r2);
    let w1 = ema_spec(alpha, prev.waiting_micros as int, v1);
    let w2 = ema_spec(alpha, prev.waiting_micros as int, v2);
    assert(blended_cost_spec(cfg, sizing, a1, w1) <= blended_cost_spec(cfg, sizing, a2, w2))
        by (nonlinear_arith)
        requires
            a1 <= a2,
            w1 <= w2,
            0 <= cfg.unit_price_e10 as int,
            0 <= sizing.function_mem_mb as int,
            0 <= sizing.caller_mem_mb as int,
            blended_cost_spec(cfg, sizing, a1, w1) == 7200 * cfg.unit_price_e10 as int * (
            sizing.function_mem_mb as int * a1 + sizing.caller_mem_mb as int * w1),
            blended_cost_spec(cfg, sizing, a2, w2) == 7200 * cfg.unit_price_e10 as int * (
            sizing.function_mem_mb as int * a2 + sizing.caller_mem_mb as int * w2),
    ;
}

/// Extending a batch never lowers the scale target: every appended sample
/// can only add active time, add waiting time, or raise the force signal.
pub proof fn lemma_larger_batch_never_lowers_scale(
    cfg: PolicyConfig,
    sizing: ResourceSizing,
    prev: PolicyState,
    samples: Seq<i64>,
    extra: Seq<i64>,
    t: int,
)
    requires
        cfg.valid(),
        t > 0,
    ensures
        cycle_scale_spec(cfg, sizing, prev, samples, t)
            <= cycle_scale_spec(cfg, sizing, prev, samples + extra, t),
{
    crate::aggregate::lemma_aggregate_split(cfg, samples, extra);
    crate::aggregate::lemma_totals_nonnegative(cfg, samples);
    crate::aggregate::lemma_totals_nonnegative(cfg, extra);
    lemma_scale_monotone_in_totals(
        cfg,
        sizing,
        prev,
        total_active_of(cfg, samples),
        total_active_of(cfg, samples + extra),
        total_waiting_of(cfg, samples),
        total_waiting_of(cfg, samples + extra),
        force_of(cfg, samples),
        force_of(cfg, samples + extra),
        t,
    );
}

/// The host-defined plug-in interface of the scaling controller: anything
/// that can turn the previous state, a sample batch, the two cycle
/// timestamps and the resource sizing into a decision can serve as the
/// policy.
pub trait RescalePolicy {
    /// What the implementation needs of its own configuration.
    spec fn wf(&self) -> bool;

    /// Run one rescale cycle.
    fn decide(
        &self,
        prev_state: Option<PolicyState>,
        sizing: Option<ResourceSizing>,
        samples: &Vec<i64>,
        curr_timestamp_secs: i64,
        prev_timestamp_secs: i64,
    ) -> (r: Result<RescaleDecision, PolicyError>)
        requires
            self.wf(),
            (prev_state matches Some(p) ==> p.valid()),
            (sizing matches Some(z) ==> z.valid()),
        ensures
            (r matches Ok(d) ==> {
                &&& d.target_scale == 0 || d.target_scale == 1
                &&& d.new_state.valid()
            }),
    ;
}

/// The cost-ratio rescaling policy for messaging functions.
pub struct MessagingRescaler {
    /// The tunable constants the policy was constructed with.
    pub config: PolicyConfig,
}

impl MessagingRescaler {
    /// Build the policy with its default parameterization.
    pub fn new() -> (r: Self)
        ensures
            r.config == PolicyConfig::default_spec(),
            r.config.valid(),
    {
        MessagingRescaler { config: PolicyConfig::default_config() }
    }

    /// Build the policy with an explicit parameterization.
    pub fn with_config(config: PolicyConfig) -> (r: Self)
        ensures
            r.config == config,
    {
        MessagingRescaler { config }
    }

    /// Run one rescale cycle: reduce the batch of raw call durations
    /// (microseconds; negative values are malformed and skipped), update the
    /// smoothed estimates over the interval between the two timestamps
    /// (seconds), and compare the blended serverless cost against the
    /// provisioned cost.
    ///
    /// A missing previous state is the first-run case and defaults to the
    /// zero state; a missing sizing record and a non-positive interval are
    /// rejected.
    pub fn rescale(
        &self,
        prev_state: Option<PolicyState>,
        sizing: Option<ResourceSizing>,
        samples: &Vec<i64>,
        curr_timestamp_secs: i64,
        prev_timestamp_secs: i64,
    ) -> (r: Result<RescaleDecision, PolicyError>)
        requires
            self.config.valid(),
            (prev_state matches Some(p) ==> p.valid()),
            (sizing matches Some(z) ==> z.valid()),
        ensures
            ((r matches Err(e) && e == PolicyError::MissingSizing) <==> sizing is None),
            ((r matches Err(e) && e == PolicyError::InvalidInterval) <==> (sizing is Some
                && curr_timestamp_secs - prev_timestamp_secs <= 0)),
            (r is Ok <==> (sizing is Some && curr_timestamp_secs - prev_timestamp_secs > 0)),
            (r matches Ok(d) ==> ({
                let t = curr_timestamp_secs - prev_timestamp_secs;
                let p = previous_or_zero(prev_state);
                &&& d.new_state.activity_micros as int == next_activity_spec(
                    self.config,
                    p,
                    samples@,
                    t,
                )
                &&& d.new_state.waiting_micros as int == next_waiting_spec(
                    self.config,
                    p,
                    samples@,
                    t,
                )
                &&& d.new_state.valid()
                &&& d.target_scale as int == decision_spec(
                    self.config,
                    sizing->Some_0,
                    d.new_state.activity_micros as int,
                    d.new_state.waiting_micros as int,
                )
                &&& d.target_scale as int == cycle_scale_spec(
                    self.config,
                    sizing->Some_0,
                    p,
                    samples@,
                    t,
                )
                &&& d.skipped_samples as int == skipped_of(samples@)
            })),
    {
        match sizing {
            Option::None => Err(PolicyError::MissingSizing),
            Option::Some(z) => {
                let interval: i128 = curr_timestamp_secs as i128 - prev_timestamp_secs as i128;
                if interval <= 0 {
                    Err(PolicyError::InvalidInterval)
                } else {
                    let t: u64 = interval as u64;
                    let prev = match prev_state {
                        Option::Some(p) => p,
                        Option::None => PolicyState::initial(),
                    };
                    let agg = aggregate_samples(&self.config, samples);
                    let new_state = estimate(&self.config, &prev, &agg, t);
                    let scale = compare_costs(&self.config, &z, &new_state);
                    Ok(
                        RescaleDecision {
                            target_scale: scale,
                            new_state,
                            skipped_samples: agg.skipped_samples,
                        },
                    )
                }
            },
        }
    }
}

impl RescalePolicy for MessagingRescaler {
    /// The policy is usable whenever its configuration is.
    open spec fn wf(&self) -> bool {
        self.config.valid()
    }

    fn decide(
        &self,
        prev_state: Option<PolicyState>,
        sizing: Option<ResourceSizing>,
        samples: &Vec<i64>,
        curr_timestamp_secs: i64,
        prev_timestamp_secs: i64,
    ) -> (r: Result<RescaleDecision, PolicyError>) {
        self.rescale(prev_state, sizing, samples, curr_timestamp_secs, prev_timestamp_secs)
    }
}

} // verus!
