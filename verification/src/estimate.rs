use vstd::prelude::*;
use vstd::arithmetic::div_mod::{
    lemma_div_is_ordered, lemma_div_multiples_vanish, lemma_fundamental_div_mod,
    lemma_hoist_over_denominator,
};
use vstd::arithmetic::mul::lemma_mul_inequality;
use vstd::arithmetic::power::{lemma_pow_positive, pow};
use vstd::math::{abs, max, min};
use crate::aggregate::SampleAggregate;
use crate::config::{
    PolicyConfig, ACTIVITY_CAP_MICROS, FORCE_ACTIVITY_MICROS, MICROS_PER_UNIT, RATE_LIMIT_MICROS,
};
use crate::state::PolicyState;

verus! {

/// One step of the exponential moving average, `(1 - alpha) * old + alpha *
/// raw`, carried out in micro-units: the weights are scaled by 1_000_000 and
/// the result is rounded down.
pub open spec fn ema_spec(alpha: int, old: int, raw: int) -> int {
    ((MICROS_PER_UNIT - alpha) * old + alpha * raw) / MICROS_PER_UNIT as int
}

/// The raw activity rate of one interval: the sentinel when the batch carried
/// a force-spin-up signal, otherwise the active fraction of the interval
/// clamped to 1.0.
pub open spec fn raw_activity_spec(cfg: PolicyConfig, total_active: int, t: int, force: bool) -> int
    recommends
        t > 0,
{
    if force {
        FORCE_ACTIVITY_MICROS as int
    } else {
        min(total_active / t, ACTIVITY_CAP_MICROS as int)
    }
}

/// The raw caller-waiting rate of one interval, saturated at the finiteness
/// guard.
pub open spec fn raw_waiting_spec(total_waiting: int, t: int) -> int
    recommends
        t > 0,
{
    min(total_waiting / t, RATE_LIMIT_MICROS as int)
}

/// One exponential-moving-average step on micro-unit rates.
pub fn smooth(alpha: u64, old: u64, raw: u64) -> (r: u64)
    requires
        0 < alpha <= MICROS_PER_UNIT,
        old <= RATE_LIMIT_MICROS,
        raw <= RATE_LIMIT_MICROS,
    ensures
        r as int == ema_spec(alpha as int, old as int, raw as int),
        r <= max(old as int, raw as int),
{
    let beta: u64 = MICROS_PER_UNIT - alpha;
    proof {
        assert(beta as int * old as int <= 1_000_000_000_000_000_000int
            && alpha as int * raw as int <= 1_000_000_000_000_000_000int) by (nonlinear_arith)
            requires
                0 <= beta as int <= 1_000_000,
                0 <= old as int <= 1_000_000_000_000,
                0 <= alpha as int <= 1_000_000,
                0 <= raw as int <= 1_000_000_000_000,
        ;
    }
    let num: u128 = beta as u128 * old as u128 + alpha as u128 * raw as u128;
    let ghost m: int = max(old as int, raw as int);
    proof {
        assert(num as int <= 1_000_000 * m) by (nonlinear_arith)
            requires
                num as int == beta as int * old as int + alpha as int * raw as int,
                beta as int + alpha as int == 1_000_000,
                0 <= beta as int,
                0 < alpha as int,
                old as int <= m,
                raw as int <= m,
        ;
        lemma_div_is_ordered(num as int, 1_000_000 * m, 1_000_000);
        lemma_div_multiples_vanish(m, 1_000_000);
    }
    let q: u128 = num / 1_000_000u128;
    q as u64
}

/// Fold one interval's aggregate into the previous state: compute the raw
/// rates for the elapsed interval and move both averages towards them.
pub fn estimate(
    cfg: &PolicyConfig,
    prev: &PolicyState,
    agg: &SampleAggregate,
    interval_secs: u64,
) -> (r: PolicyState)
    requires
        cfg.valid(),
        prev.valid(),
        interval_secs > 0,
    ensures
        r.activity_micros as int == ema_spec(
            cfg.smoothing_micros as int,
            prev.activity_micros as int,
            raw_activity_spec(
                *cfg,
                agg.total_active_micros as int,
                interval_secs as int,
                agg.force_spin_up,
            ),
        ),
        r.waiting_micros as int == ema_spec(
            cfg.smoothing_micros as int,
            prev.waiting_micros as int,
            raw_waiting_spec(agg.total_waiting_micros as int, interval_secs as int),
        ),
        r.valid(),
{
    let raw_activity: u64 = if agg.force_spin_up {
        FORCE_ACTIVITY_MICROS
    } else {
        proof {
            lemma_div_is_ordered(0, agg.total_active_micros as int, interval_secs as int);
        }
        let q: u128 = agg.total_active_micros / interval_secs as u128;
        if q > ACTIVITY_CAP_MICROS as u128 {
            ACTIVITY_CAP_MICROS
        } else {
            q as u64
        }
    };
    let raw_waiting: u64 = {
        proof {
            lemma_div_is_ordered(0, agg.total_waiting_micros as int, interval_secs as int);
        }
        let q: u128 = agg.total_waiting_micros / interval_secs as u128;
        if q > RATE_LIMIT_MICROS as u128 {
            RATE_LIMIT_MICROS
        } else {
            q as u64
        }
    };
    let activity = smooth(cfg.smoothing_micros, prev.activity_micros, raw_activity);
    let waiting = smooth(cfg.smoothing_micros, prev.waiting_micros, raw_waiting);
    PolicyState { activity_micros: activity, waiting_micros: waiting }
}

/// The average after `n` cycles that all observe the same raw rate `r`.
pub open spec fn smoothed_iter(alpha: int, a0: int, r: int, n: nat) -> int
    decreases n,
{
    if n == 0 {
        a0
    } else {
        ema_spec(alpha, smoothed_iter(alpha, a0, r, (n - 1) as nat), r)
    }
}

/// One smoothing step is a contraction towards the observed rate: the
/// distance to `r` shrinks by the factor `(1 - alpha)`, up to the one
/// micro-unit the fixed-point rounding can add.
pub proof fn lemma_smoothing_step_bound(alpha: int, a: int, r: int)
    requires
        0 < alpha <= MICROS_PER_UNIT as int,
    ensures
        MICROS_PER_UNIT as int * abs(ema_spec(alpha, a, r) - r)
            <= (MICROS_PER_UNIT - alpha) * abs(a - r) + MICROS_PER_UNIT,
{
    let u: int = MICROS_PER_UNIT as int;
    let beta = u - alpha;
    let e = a - r;
    assert(beta * a + alpha * r == beta * e + r * u) by (nonlinear_arith)
        requires
            beta + alpha == u,
            e == a - r,
    ;
    lemma_hoist_over_denominator(beta * e, r, MICROS_PER_UNIT as nat);
    let q = (beta * e) / u;
    assert(ema_spec(alpha, a, r) - r == q);
    lemma_fundamental_div_mod(beta * e, u);
    let m = (beta * e) % u;
    assert(beta * e == u * q + m);
    if e >= 0 {
        assert(beta * e >= 0 && beta * e == beta * abs(e)) by (nonlinear_arith)
            requires
                beta >= 0,
                e >= 0,
                abs(e) == e,
        ;
        lemma_div_is_ordered(0, beta * e, u);
        assert(q >= 0);
        assert(u * abs(q) == u * q);
    } else {
        assert(beta * e <= 0 && m - beta * e == m + beta * abs(e)) by (nonlinear_arith)
            requires
                beta >= 0,
                e < 0,
                abs(e) == -e,
        ;
        assert(u * q == beta * e - m);
        assert(q <= 0);
        assert(u * abs(q) == -(u * q));
    }
}

/// Smoothing convergence: feeding the same raw rate `r` for `n` cycles leaves
/// the average within `(1 - alpha)^n` of its initial distance to `r`, plus a
/// constant rounding margin `c` with `c * alpha >= 1`. All terms are scaled by
/// `1_000_000^n` so the statement stays in integers.
pub proof fn lemma_smoothing_convergence(alpha: int, a0: int, r: int, c: int, n: nat)
    requires
        0 < alpha <= MICROS_PER_UNIT as int,
        c * alpha >= MICROS_PER_UNIT as int,
    ensures
        pow(MICROS_PER_UNIT as int, n) * abs(smoothed_iter(alpha, a0, r, n) - r)
            <= pow(MICROS_PER_UNIT - alpha, n) * abs(a0 - r)
                + c * pow(MICROS_PER_UNIT as int, n),
    decreases n,
{
    reveal(pow);
    let u: int = MICROS_PER_UNIT as int;
    let beta = u - alpha;
    assert(c >= 1) by (nonlinear_arith)
        requires
            c * alpha >= u,
            0 < alpha <= u,
            u == 1_000_000,
    ;
    if n == 0 {
        assert(pow(u, 0) == 1);
        assert(pow(beta, 0) == 1);
    } else {
        let m = (n - 1) as nat;
        lemma_smoothing_convergence(alpha, a0, r, c, m);
        lemma_smoothing_step_bound(alpha, smoothed_iter(alpha, a0, r, m), r);
        lemma_pow_positive(u, m);
        lemma_pow_positive(u, n);
        let pu = pow(u, m);
        let pb = pow(beta, m);
        let big_a = abs(smoothed_iter(alpha, a0, r, m) - r) as int;
        let big_b = abs(smoothed_iter(alpha, a0, r, n) - r) as int;
        let d0 = abs(a0 - r) as int;
        assert(pow(u, n) == u * pu);
        assert(pow(beta, n) == beta * pb);
        assert(pb >= 0) by {
            if beta > 0 {
                lemma_pow_positive(beta, m);
            } else {
                assert(beta == 0);
                if m == 0 {
                    assert(pow(beta, m) == 1);
                } else {
                    assert(pow(0int, m) == 0 * pow(0int, (m - 1) as nat));
                }
            }
        }
        assert((u * pu) * big_b <= (beta * pb) * d0 + c * (u * pu)) by (nonlinear_arith)
            requires
                u * big_b <= beta * big_a + u,
                pu * big_a <= pb * d0 + c * pu,
                c * alpha >= u,
                beta == u - alpha,
                0 <= beta,
                0 < pu,
                0 <= pb,
                0 <= big_a,
                0 <= big_b,
                0 <= d0,
                u == 1_000_000,
        ;
    }
}

/// The scaled exact moving average: the value after `n` identical cycles,
/// kept as an exact numerator over `1_000_000^n` instead of rounding at each
/// step.
pub open spec fn smoothed_iter_scaled(alpha: int, a0: int, r: int, n: nat) -> int
    decreases n,
{
    if n == 0 {
        a0
    } else {
        (MICROS_PER_UNIT - alpha) * smoothed_iter_scaled(alpha, a0, r, (n - 1) as nat)
            + alpha * r * pow(MICROS_PER_UNIT as int, (n - 1) as nat)
    }
}

/// The exact geometric law of the moving average: after `n` cycles of the
/// same raw rate `r`, the distance to `r` is exactly `(1 - alpha)^n` times
/// the initial distance. Stated over the exact (unrounded) average with every
/// term scaled by `1_000_000^n`.
pub proof fn lemma_smoothing_geometric(alpha: int, a0: int, r: int, n: nat)
    ensures
        smoothed_iter_scaled(alpha, a0, r, n) - r * pow(MICROS_PER_UNIT as int, n)
            == pow(MICROS_PER_UNIT - alpha, n) * (a0 - r),
    decreases n,
{
    reveal(pow);
    let u: int = MICROS_PER_UNIT as int;
    let beta = u - alpha;
    if n == 0 {
        assert(pow(u, 0) == 1);
        assert(pow(beta, 0) == 1);
    } else {
        let m = (n - 1) as nat;
        lemma_smoothing_geometric(alpha, a0, r, m);
        let s = smoothed_iter_scaled(alpha, a0, r, m);
        let pu = pow(u, m);
        let pb = pow(beta, m);
        assert(pow(u, n) == u * pu);
        assert(pow(beta, n) == beta * pb);
        assert(alpha * r * pu - r * (u * pu) == -(beta * (r * pu))) by (nonlinear_arith)
            requires
                beta == u - alpha,
        ;
        assert(beta * s - beta * (r * pu) == (beta * pb) * (a0 - r)) by (nonlinear_arith)
            requires
                s - r * pu == pb * (a0 - r),
        ;
    }
}

/// The moving average is monotone in the raw observation.
pub proof fn lemma_smooth_monotone(alpha: int, old: int, r1: int, r2: int)
    requires
        0 <= alpha,
        r1 <= r2,
    ensures
        ema_spec(alpha, old, r1) <= ema_spec(alpha, old, r2),
{
    lemma_mul_inequality(r1, r2, alpha);
    assert(r1 * alpha == alpha * r1) by (nonlinear_arith);
    assert(r2 * alpha == alpha * r2) by (nonlinear_arith);
    lemma_div_is_ordered(
        (MICROS_PER_UNIT - alpha) * old + alpha * r1,
        (MICROS_PER_UNIT - alpha) * old + alpha * r2,
        MICROS_PER_UNIT as int,
    );
}

} // verus!
