//! Reduction of a block of samples to one statistic: its arithmetic mean.
//!
//! Voltages are held in fixed point: a [`Sample`] counts nanovolts. The mean
//! of a block is kept exact, as the sum of the samples over their number, so
//! nothing is rounded here. Whoever needs a single number divides once, at
//! the precision it wants.

use vstd::prelude::*;

verus! {

/// One voltage reading, in nanovolts.
pub type Sample = i64;

/// Number of sample units in one volt.
pub const UNITS_PER_VOLT: i64 = 1_000_000_000;

/// An arithmetic mean as a fraction: `total / count`, in sample units.
pub struct Mean {
    /// The exact sum of the samples.
    pub total: int,
    /// The number of samples.
    pub count: nat,
}

impl Mean {
    /// The mean is exactly `value`.
    pub open spec fn is_exactly(self, value: int) -> bool {
        self.total == value * self.count
    }

    /// The mean lies between `low` and `high`, both included.
    pub open spec fn is_within(self, low: int, high: int) -> bool {
        low * self.count <= self.total <= high * self.count
    }
}

/// Exact sum of the first `count` samples, added left to right.
pub open spec fn partial_total(samples: Seq<Sample>, count: nat) -> int
    recommends
        count <= samples.len(),
    decreases count,
{
    if count == 0 {
        0
    } else {
        partial_total(samples, (count - 1) as nat) + samples[count - 1]
    }
}

/// Exact sum of all the samples.
pub open spec fn total(samples: Seq<Sample>) -> int {
    partial_total(samples, samples.len())
}

/// The arithmetic mean of a non-empty run of samples: their exact sum over
/// their number.
pub open spec fn mean_of(samples: Seq<Sample>) -> Mean
    recommends
        samples.len() > 0,
{
    Mean { total: total(samples), count: samples.len() }
}

/// Every sample lies between `low` and `high`.
pub open spec fn all_within(samples: Seq<Sample>, low: int, high: int) -> bool {
    forall|i: int| 0 <= i < samples.len() ==> low <= #[trigger] samples[i] <= high
}

/// The summary of one block: its mean, exact.
#[derive(Debug, Clone, Copy, PartialEq, Eq)]
pub struct Statistic {
    sum: i128,
    count: usize,
}

impl View for Statistic {
    type V = Mean;

    closed spec fn view(&self) -> Mean {
        Mean { total: self.sum as int, count: self.count as nat }
    }
}

impl Statistic {
    #[verifier::type_invariant]
    spec fn divisor_is_positive(self) -> bool {
        self.count > 0
    }

    /// The statistic that stands for zero volts.
    pub fn zero() -> (statistic: Statistic)
        ensures
            statistic@ == (Mean { total: 0, count: 1 }),
    {
        Statistic { sum: 0, count: 1 }
    }

    /// The numerator of the mean: the exact sum of the samples.
    pub fn sum(&self) -> (sum: i128)
        ensures
            sum == self@.total,
    {
        self.sum
    }

    /// The denominator of the mean: the number of samples, never zero.
    pub fn count(&self) -> (count: usize)
        ensures
            count == self@.count,
            count > 0,
    {
        proof {
            use_type_invariant(self);
        }
        self.count
    }
}

proof fn lemma_partial_total_within(samples: Seq<Sample>, count: nat, low: int, high: int)
    requires
        count <= samples.len(),
        all_within(samples, low, high),
    ensures
        low * count <= partial_total(samples, count) <= high * count,
    decreases count,
{
    if count > 0 {
        let before = (count - 1) as nat;
        lemma_partial_total_within(samples, before, low, high);
        assert(low <= samples[count - 1] <= high);
        assert(low * count == low * before + low) by (nonlinear_arith)
            requires
                count == before + 1,
        ;
        assert(high * count == high * before + high) by (nonlinear_arith)
            requires
                count == before + 1,
        ;
    }
}

/// The mean of a block lies between any two bounds that hold of each of its
/// samples.
pub proof fn lemma_mean_within_range(samples: Seq<Sample>, low: int, high: int)
    requires
        all_within(samples, low, high),
    ensures
        mean_of(samples).is_within(low, high),
{
    lemma_partial_total_within(samples, samples.len(), low, high);
}

/// A block whose samples all read `level` has exactly `level` as its mean.
pub proof fn lemma_mean_of_constant_block(samples: Seq<Sample>, level: Sample)
    requires
        forall|i: int| 0 <= i < samples.len() ==> samples[i] == level,
    ensures
        mean_of(samples).is_exactly(level as int),
{
    lemma_mean_within_range(samples, level as int, level as int);
}

/// Computes the mean of a block.
///
/// The samples are summed left to right in an accumulator wide enough to hold
/// the exact sum of any block. The sum is not divided: the statistic is the
/// sum together with the block's length.
pub fn mean(block: &[Sample]) -> (statistic: Statistic)
    requires
        block@.len() > 0,
    ensures
        statistic@ == mean_of(block@),
{
    let count: usize = block.len();
    let mut sum: i128 = 0;
    let mut i: usize = 0;
    while i < count
        invariant
            count == block@.len(),
            i <= count,
            sum == partial_total(block@, i as nat),
            i64::MIN * i <= sum <= i64::MAX * i,
        decreases count - i,
    {
        sum = sum + block[i] as i128;
        i = i + 1;
    }
    Statistic { sum, count }
}

} // verus!
