use vstd::prelude::*;
use vstd::math::max;
use crate::config::{PolicyConfig, ResourceSizing};
use crate::state::PolicyState;

verus! {

/// The hourly cost of the provisioned instance, scaled by `2048 * 10^16`:
/// `basePrice * (mem / 2048)` dollars per hour becomes
/// `base_price_e10 * mem * 1_000_000`, guarded away from zero so a zero-sized
/// descriptor cannot make the cost ratio non-finite.
pub open spec fn provisioned_cost_spec(cfg: PolicyConfig, sizing: ResourceSizing) -> int {
    max(cfg.base_price_e10 * sizing.provisioned_mem_mb * 1_000_000, 1)
}

/// The blended hourly cost of staying serverless, on the same `2048 * 10^16`
/// scale: `unitPrice * 3600 * (fnMem / 1024) * activity` for compute plus
/// `unitPrice * 3600 * (callerMem / 1024) * waiting` for caller waiting
/// becomes `7200 * unit_price_e10 * (fnMem * activity + callerMem * waiting)`
/// with the rates in micro-units.
pub open spec fn blended_cost_spec(
    cfg: PolicyConfig,
    sizing: ResourceSizing,
    activity: int,
    waiting: int,
) -> int {
    7200 * cfg.unit_price_e10 * (sizing.function_mem_mb * activity + sizing.caller_mem_mb
        * waiting)
}

/// The break-even decision: provision a standing instance (1) exactly when
/// the blended serverless cost reaches the provisioned cost, that is when the
/// cost ratio is at least 1.0; stay serverless (0) below it.
pub open spec fn decision_spec(
    cfg: PolicyConfig,
    sizing: ResourceSizing,
    activity: int,
    waiting: int,
) -> int {
    if blended_cost_spec(cfg, sizing, activity, waiting) >= provisioned_cost_spec(cfg, sizing) {
        1
    } else {
        0
    }
}

/// Convert the smoothed estimates and the resource sizing into the binary
/// scale target.
pub fn compare_costs(cfg: &PolicyConfig, sizing: &ResourceSizing, state: &PolicyState) -> (r: u64)
    requires
        cfg.valid(),
        sizing.valid(),
        state.valid(),
    ensures
        r as int == decision_spec(
            *cfg,
            *sizing,
            state.activity_micros as int,
            state.waiting_micros as int,
        ),
        r == 1 <==> blended_cost_spec(
            *cfg,
            *sizing,
            state.activity_micros as int,
            state.waiting_micros as int,
        ) >= provisioned_cost_spec(*cfg, *sizing),
        r == 0 || r == 1,
{
    proof {
        assert(cfg.base_price_e10 as int * sizing.provisioned_mem_mb as int
            <= 1_000_000_000_000_000_000_000int) by (nonlinear_arith)
            requires
                0 <= cfg.base_price_e10 as int <= 1_000_000_000_000,
                0 <= sizing.provisioned_mem_mb as int <= 1_000_000_000,
        ;
    }
    let prov_raw: u128 = cfg.base_price_e10 as u128 * sizing.provisioned_mem_mb as u128
        * 1_000_000u128;
    let provisioned: u128 = if prov_raw == 0 {
        1
    } else {
        prov_raw
    };
    proof {
        assert(sizing.function_mem_mb as int * state.activity_micros as int
            <= 1_000_000_000_000_000_000_000int
            && sizing.caller_mem_mb as int * state.waiting_micros as int
            <= 1_000_000_000_000_000_000_000int) by (nonlinear_arith)
            requires
                0 <= sizing.function_mem_mb as int <= 1_000_000_000,
                0 <= sizing.caller_mem_mb as int <= 1_000_000_000,
                0 <= state.activity_micros as int <= 1_000_000_000_000,
                0 <= state.waiting_micros as int <= 1_000_000_000_000,
        ;
    }
    let load: u128 = sizing.function_mem_mb as u128 * state.activity_micros as u128
        + sizing.caller_mem_mb as u128 * state.waiting_micros as u128;
    proof {
        assert(7200 * cfg.unit_price_e10 as int * load as int
            <= 0x4000_0000_0000_0000_0000_0000_0000_0000int) by (nonlinear_arith)
            requires
                0 <= cfg.unit_price_e10 as int <= 1_000_000_000_000,
                0 <= load as int <= 2_000_000_000_000_000_000_000int,
        ;
    }
    let blended: u128 = 7200u128 * cfg.unit_price_e10 as u128 * load;
    if blended >= provisioned {
        1
    } else {
        0
    }
}

} // verus!
