use vstd::prelude::*;
use crate::config::{PolicyConfig, ACTIVE_FLOOR_MICROS};

verus! {

/// The reduction of one batch of raw call-duration samples into per-interval
/// totals. Durations and totals are microseconds.
#[derive(Clone, Copy, Debug, PartialEq, Eq, Structural)]
pub struct SampleAggregate {
    /// Total time spent actively handling calls, after the per-call overhead
    /// is subtracted (floored) from each well-formed sample.
    pub total_active_micros: u128,
    /// Total caller-side waiting time: a fixed overhead per well-formed sample.
    pub total_waiting_micros: u128,
    /// Whether any sample in the batch was a force-spin-up signal.
    pub force_spin_up: bool,
    /// How many malformed (negative-duration) samples were skipped.
    pub skipped_samples: usize,
}

/// A negative duration is malformed; the sample is skipped, not failed on.
pub open spec fn sample_skipped(d: i64) -> bool {
    d < 0
}

/// A well-formed duration strictly below the force threshold is an explicit
/// out-of-band signal to force scale-up, not real work.
pub open spec fn sample_forces(cfg: PolicyConfig, d: i64) -> bool {
    0 <= d && (d as int) < cfg.force_threshold_micros as int
}

/// Active time attributed to one sample: `max(d - minOverhead, floor)` for a
/// well-formed sample that is real work, nothing otherwise.
pub open spec fn active_contribution(cfg: PolicyConfig, d: i64) -> int {
    if sample_skipped(d) || sample_forces(cfg, d) {
        0
    } else if d - cfg.min_overhead_micros < ACTIVE_FLOOR_MICROS as int {
        ACTIVE_FLOOR_MICROS as int
    } else {
        d - cfg.min_overhead_micros
    }
}

/// Caller waiting time attributed to one sample: the fixed overhead for every
/// well-formed sample, whatever its duration.
pub open spec fn waiting_contribution(cfg: PolicyConfig, d: i64) -> int {
    if sample_skipped(d) {
        0
    } else {
        cfg.max_overhead_micros as int
    }
}

/// Total active microseconds of a batch.
pub open spec fn total_active_of(cfg: PolicyConfig, s: Seq<i64>) -> int
    decreases s.len(),
{
    if s.len() == 0 {
        0
    } else {
        total_active_of(cfg, s.drop_last()) + active_contribution(cfg, s.last())
    }
}

/// Total caller-waiting microseconds of a batch.
pub open spec fn total_waiting_of(cfg: PolicyConfig, s: Seq<i64>) -> int
    decreases s.len(),
{
    if s.len() == 0 {
        0
    } else {
        total_waiting_of(cfg, s.drop_last()) + waiting_contribution(cfg, s.last())
    }
}

/// Whether a batch carries a force-spin-up signal: sticky, one sample is
/// enough.
pub open spec fn force_of(cfg: PolicyConfig, s: Seq<i64>) -> bool
    decreases s.len(),
{
    if s.len() == 0 {
        false
    } else {
        force_of(cfg, s.drop_last()) || sample_forces(cfg, s.last())
    }
}

/// How many samples of a batch are malformed.
pub open spec fn skipped_of(s: Seq<i64>) -> int
    decreases s.len(),
{
    if s.len() == 0 {
        0
    } else {
        skipped_of(s.drop_last()) + if sample_skipped(s.last()) { 1int } else { 0int }
    }
}

/// No batch can reduce to negative totals.
pub proof fn lemma_totals_nonnegative(cfg: PolicyConfig, s: Seq<i64>)
    ensures
        0 <= total_active_of(cfg, s),
        0 <= total_waiting_of(cfg, s),
    decreases s.len(),
{
    if s.len() > 0 {
        lemma_totals_nonnegative(cfg, s.drop_last());
    }
}

/// Aggregation distributes over concatenation: reducing the union of two
/// sub-batches gives the combination of the two reductions, so a sample set
/// may be delivered in any number of sub-batches without changing the totals,
/// the force signal, or the skipped count.
pub proof fn lemma_aggregate_split(cfg: PolicyConfig, s1: Seq<i64>, s2: Seq<i64>)
    ensures
        total_active_of(cfg, s1 + s2) == total_active_of(cfg, s1) + total_active_of(cfg, s2),
        total_waiting_of(cfg, s1 + s2) == total_waiting_of(cfg, s1) + total_waiting_of(cfg, s2),
        force_of(cfg, s1 + s2) == (force_of(cfg, s1) || force_of(cfg, s2)),
        skipped_of(s1 + s2) == skipped_of(s1) + skipped_of(s2),
    decreases s2.len(),
{
    if s2.len() == 0 {
        assert(s1 + s2 =~= s1);
    } else {
        lemma_aggregate_split(cfg, s1, s2.drop_last());
        assert((s1 + s2).drop_last() =~= s1 + s2.drop_last());
        assert((s1 + s2).last() == s2.last());
    }
}

/// The single batch delivered by a list of sub-batches.
pub open spec fn joined(parts: Seq<Seq<i64>>) -> Seq<i64>
    decreases parts.len(),
{
    if parts.len() == 0 {
        Seq::<i64>::empty()
    } else {
        joined(parts.drop_last()) + parts.last()
    }
}

/// The active totals of a list of sub-batches, reduced one sub-batch at a
/// time.
pub open spec fn total_active_of_parts(cfg: PolicyConfig, parts: Seq<Seq<i64>>) -> int
    decreases parts.len(),
{
    if parts.len() == 0 {
        0
    } else {
        total_active_of_parts(cfg, parts.drop_last()) + total_active_of(cfg, parts.last())
    }
}

/// The waiting totals of a list of sub-batches, reduced one sub-batch at a
/// time.
pub open spec fn total_waiting_of_parts(cfg: PolicyConfig, parts: Seq<Seq<i64>>) -> int
    decreases parts.len(),
{
    if parts.len() == 0 {
        0
    } else {
        total_waiting_of_parts(cfg, parts.drop_last()) + total_waiting_of(cfg, parts.last())
    }
}

/// Whether any sub-batch of a list carries a force signal.
pub open spec fn force_of_parts(cfg: PolicyConfig, parts: Seq<Seq<i64>>) -> bool
    decreases parts.len(),
{
    if parts.len() == 0 {
        false
    } else {
        force_of_parts(cfg, parts.drop_last()) || force_of(cfg, parts.last())
    }
}

/// The skipped counts of a list of sub-batches, added up.
pub open spec fn skipped_of_parts(parts: Seq<Seq<i64>>) -> int
    decreases parts.len(),
{
    if parts.len() == 0 {
        0
    } else {
        skipped_of_parts(parts.drop_last()) + skipped_of(parts.last())
    }
}

/// Idempotence of the reduction: however a sample set is divided into
/// sub-batches, reducing the sub-batches and combining the results equals
/// reducing the whole set at once.
pub proof fn lemma_aggregate_sub_batches(cfg: PolicyConfig, parts: Seq<Seq<i64>>)
    ensures
        total_active_of(cfg, joined(parts)) == total_active_of_parts(cfg, parts),
        total_waiting_of(cfg, joined(parts)) == total_waiting_of_parts(cfg, parts),
        force_of(cfg, joined(parts)) == force_of_parts(cfg, parts),
        skipped_of(joined(parts)) == skipped_of_parts(parts),
    decreases parts.len(),
{
    if parts.len() > 0 {
        lemma_aggregate_sub_batches(cfg, parts.drop_last());
        lemma_aggregate_split(cfg, joined(parts.drop_last()), parts.last());
    }
}

/// Removing one sample takes exactly its contributions out of the reduction.
proof fn lemma_aggregate_remove(cfg: PolicyConfig, s: Seq<i64>, i: int)
    requires
        0 <= i < s.len(),
    ensures
        total_active_of(cfg, s) == total_active_of(cfg, s.remove(i)) + active_contribution(
            cfg,
            s[i],
        ),
        total_waiting_of(cfg, s) == total_waiting_of(cfg, s.remove(i)) + waiting_contribution(
            cfg,
            s[i],
        ),
        force_of(cfg, s) == (force_of(cfg, s.remove(i)) || sample_forces(cfg, s[i])),
        skipped_of(s) == skipped_of(s.remove(i)) + if sample_skipped(s[i]) { 1int } else { 0int },
    decreases s.len(),
{
    if i == s.len() - 1 {
        assert(s.remove(i) =~= s.drop_last());
    } else {
        lemma_aggregate_remove(cfg, s.drop_last(), i);
        assert(s.remove(i).drop_last() =~= s.drop_last().remove(i));
        assert(s.remove(i).last() == s.last());
        assert(s.drop_last()[i] == s[i]);
    }
}

/// Order irrelevance of the reduction: two batches that hold the same
/// samples, in whatever order, reduce to the same totals, force signal and
/// skipped count.
pub proof fn lemma_aggregate_order_invariance(cfg: PolicyConfig, s1: Seq<i64>, s2: Seq<i64>)
    requires
        s1.to_multiset() == s2.to_multiset(),
    ensures
        total_active_of(cfg, s1) == total_active_of(cfg, s2),
        total_waiting_of(cfg, s1) == total_waiting_of(cfg, s2),
        force_of(cfg, s1) == force_of(cfg, s2),
        skipped_of(s1) == skipped_of(s2),
    decreases s1.len(),
{
    broadcast use vstd::seq_lib::group_to_multiset_ensures;

    if s1.len() == 0 {
        assert(s2.to_multiset().len() == 0);
        assert(s2.len() == 0);
    } else {
        let x = s1.last();
        let i = s1.len() - 1;
        assert(s1.contains(x));
        assert(s2.to_multiset().count(x) > 0);
        assert(s2.contains(x));
        let j = choose|j: int| 0 <= j < s2.len() && s2[j] == x;
        assert(s1.remove(i).to_multiset() =~= s1.to_multiset().remove(x));
        assert(s2.remove(j).to_multiset() =~= s2.to_multiset().remove(x));
        lemma_aggregate_order_invariance(cfg, s1.remove(i), s2.remove(j));
        lemma_aggregate_remove(cfg, s1, i);
        lemma_aggregate_remove(cfg, s2, j);
    }
}

/// One well-formed sample below the force threshold makes the whole batch
/// forcing, whatever the magnitude or count of the other samples: the raw
/// activity of such a cycle is the sentinel, not the measured rate.
pub proof fn lemma_force_stickiness(cfg: PolicyConfig, s: Seq<i64>, i: int)
    requires
        0 <= i < s.len(),
        sample_forces(cfg, s[i]),
    ensures
        force_of(cfg, s),
        forall|t: int|
            #[trigger] crate::estimate::raw_activity_spec(cfg, total_active_of(cfg, s), t, force_of(cfg, s))
                == crate::config::FORCE_ACTIVITY_MICROS as int,
    decreases s.len(),
{
    if i == s.len() - 1 {
    } else {
        assert(s.drop_last()[i] == s[i]);
        lemma_force_stickiness(cfg, s.drop_last(), i);
    }
}

/// Reduce a batch of raw call-duration samples (microseconds; negative values
/// are malformed and skipped) into the interval totals and the force signal.
/// An empty batch yields zero totals and no force signal.
pub fn aggregate_samples(cfg: &PolicyConfig, samples: &Vec<i64>) -> (r: SampleAggregate)
    requires
        cfg.valid(),
    ensures
        r.total_active_micros as int == total_active_of(*cfg, samples@),
        r.total_waiting_micros as int == total_waiting_of(*cfg, samples@),
        r.force_spin_up == force_of(*cfg, samples@),
        r.skipped_samples as int == skipped_of(samples@),
{
    let mut total_active: u128 = 0;
    let mut total_waiting: u128 = 0;
    let mut force_spin_up: bool = false;
    let mut skipped: usize = 0;
    let mut i: usize = 0;
    while i < samples.len()
        invariant
            cfg.valid(),
            i <= samples.len(),
            total_active as int == total_active_of(*cfg, samples@.take(i as int)),
            total_waiting as int == total_waiting_of(*cfg, samples@.take(i as int)),
            force_spin_up == force_of(*cfg, samples@.take(i as int)),
            skipped as int == skipped_of(samples@.take(i as int)),
            total_active <= (i as int) * 0x7fff_ffff_ffff_ffffint,
            total_waiting <= (i as int) * 1_000_000_000_000int,
            skipped <= i,
        decreases samples.len() - i,
    {
        let d = samples[i];
        proof {
            assert(samples@.take(i + 1).drop_last() =~= samples@.take(i as int));
            assert(samples@.take(i + 1).last() == samples@[i as int]);
        }
        if d < 0 {
            skipped = skipped + 1;
        } else {
            let du = d as u64;
            if du < cfg.force_threshold_micros {
                force_spin_up = true;
            } else {
                let active: u64 = if du < cfg.min_overhead_micros + ACTIVE_FLOOR_MICROS {
                    ACTIVE_FLOOR_MICROS
                } else {
                    du - cfg.min_overhead_micros
                };
                total_active = total_active + active as u128;
            }
            total_waiting = total_waiting + cfg.max_overhead_micros as u128;
        }
        i = i + 1;
    }
    proof {
        assert(samples@.take(samples@.len() as int) =~= samples@);
    }
    SampleAggregate {
        total_active_micros: total_active,
        total_waiting_micros: total_waiting,
        force_spin_up,
        skipped_samples: skipped,
    }
}

} // verus!
