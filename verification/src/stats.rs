//! Welch's two-sample t-test over duration vectors.
//!
//! Durations are exact nanosecond counts, so every part of the verdict that
//! is decidable in exact arithmetic is computed and verified here: sample
//! sums, mean comparisons (by cross-multiplication), zero-variance
//! detection, the effect size as an exact rational, and the significance
//! and winner rules.  The one transcendental step — the Student-t
//! cumulative distribution that turns a t-statistic into a p-value — cannot
//! be expressed in exact arithmetic; when it is needed, [`WelchTTest::analyze`]
//! says so, and the caller hands the externally computed p-value (in parts
//! per million) to [`WelchTTest::analyze_with_p`], which derives the verdict
//! from it under a verified contract.
//!
//! Probabilities and confidence levels are carried in parts per million
//! (ppm): a confidence level of 95% is `950_000`.

use vstd::prelude::*;

verus! {

/// One part-per-million scale: probabilities map `[0, 1]` to `[0, PPM]`.
pub const PPM: u32 = 1_000_000;

/// Identifies which side of a comparison won.
#[derive(Debug, Clone, Copy, PartialEq, Eq)]
pub enum Side {
    Baseline,
    Candidate,
}

/// A sample mean as an exact rational: the sum of the samples in
/// nanoseconds over the sample count.  A mean over zero samples has the
/// value zero.
#[derive(Debug, Clone, Copy, PartialEq, Eq)]
pub struct MeanNs {
    /// Sum of the samples, in nanoseconds.
    pub sum_ns: u128,
    /// Number of samples.
    pub count: u32,
}

/// The effect size as an exact rational fraction of the baseline mean.
///
/// The value in percent is `100 * num / den`, negated when `negative`
/// holds.  Positive means the candidate is faster.  A zero effect is
/// `num == 0`, `den == 1`, `negative == false`.
#[derive(Debug, Clone, Copy, PartialEq, Eq)]
pub struct EffectSize {
    pub negative: bool,
    pub num: u128,
    pub den: u128,
}

impl EffectSize {
    /// The zero effect.
    pub fn zero() -> (r: EffectSize)
        ensures
            r == EffectSize::spec_zero(),
    {
        EffectSize { negative: false, num: 0, den: 1 }
    }

    /// The zero effect, in specifications.
    pub open spec fn spec_zero() -> EffectSize {
        EffectSize { negative: false, num: 0, den: 1 }
    }
}

/// The verdict for one benchmark comparison.
#[derive(Debug, Clone, PartialEq)]
pub struct TestResult {
    /// The p-value of the test, in parts per million.
    pub p_ppm: u32,
    /// Whether the difference is significant at the configured confidence
    /// level.
    pub statistically_significant: bool,
    /// Effect size; positive means the candidate is faster.
    pub effect_size: EffectSize,
    /// The confidence level the test was run at, in parts per million.
    pub confidence_ppm: u32,
    /// The winner, present exactly when the difference is significant.
    pub winner: Option<Side>,
    /// Mean of the baseline samples.
    pub baseline_mean: MeanNs,
    /// Mean of the candidate samples.
    pub candidate_mean: MeanNs,
}

/// Sum of a duration vector, as a mathematical integer.
pub open spec fn sum_ns(s: Seq<u64>) -> int
    decreases s.len(),
{
    if s.len() == 0 {
        0
    } else {
        sum_ns(s.drop_last()) + s.last()
    }
}

/// All samples in the vector are equal, which for two or more samples is
/// exactly when the unbiased sample variance is zero.
pub open spec fn all_equal(s: Seq<u64>) -> bool {
    forall|i: int| 0 <= i < s.len() ==> #[trigger] s[i] == s[0]
}

/// The two sample means are equal: `sum(b)/|b| == sum(c)/|c|`, compared by
/// cross-multiplication.
pub open spec fn means_equal(b: Seq<u64>, c: Seq<u64>) -> bool {
    sum_ns(b) * c.len() == sum_ns(c) * b.len()
}

/// The baseline mean is strictly greater than the candidate mean, that is,
/// the candidate is faster.
pub open spec fn baseline_slower(b: Seq<u64>, c: Seq<u64>) -> bool {
    sum_ns(b) * c.len() > sum_ns(c) * b.len()
}

/// The verdict can be fixed without a p-value: too few samples, equal
/// means (the t-statistic is zero), or both variances zero.
pub open spec fn exactly_decidable(b: Seq<u64>, c: Seq<u64>) -> bool {
    b.len() < 2 || c.len() < 2 || means_equal(b, c) || (all_equal(b) && all_equal(c))
}

/// The exact mean of a duration vector.
pub open spec fn spec_mean(s: Seq<u64>) -> MeanNs {
    MeanNs { sum_ns: sum_ns(s) as u128, count: s.len() as u32 }
}

/// The exact effect size `100 * (m1 - m2) / m1` percent, where `m1` is the
/// baseline mean and `m2` the candidate mean, as the fraction
/// `(s1*n2 - s2*n1) / (s1*n2)`.  Zero when the baseline mean is zero.
pub open spec fn spec_effect(b: Seq<u64>, c: Seq<u64>) -> EffectSize {
    let cross1 = sum_ns(b) * c.len();
    let cross2 = sum_ns(c) * b.len();
    if sum_ns(b) == 0 {
        EffectSize::spec_zero()
    } else if cross1 >= cross2 {
        EffectSize { negative: false, num: (cross1 - cross2) as u128, den: cross1 as u128 }
    } else {
        EffectSize { negative: true, num: (cross2 - cross1) as u128, den: cross1 as u128 }
    }
}

/// A result is internally sound: a winner is only declared on a
/// significant difference, and significance means the p-value is below
/// `1 - c`.
pub open spec fn verdict_sound(r: TestResult) -> bool {
    &&& (r.winner is Some ==> r.statistically_significant)
    &&& (r.statistically_significant ==> r.p_ppm < PPM - r.confidence_ppm)
}

/// Outcome of the exact phase of the analysis: either the verdict is
/// already fixed, or a p-value from the Student-t distribution is needed
/// to fix it.
#[derive(Debug, Clone, PartialEq)]
pub enum AnalysisOutcome {
    /// The verdict, fixed in exact arithmetic.
    Decided(TestResult),
    /// The means differ and at least one variance is nonzero: the verdict
    /// depends on the p-value.  Compute the two-tailed Welch p-value from
    /// the same two vectors and hand it to [`WelchTTest::analyze_with_p`].
    NeedsPValue,
}

/// The verdict fixed by the exact phase, when it can be.
///
/// Cases, in order: with fewer than two samples on either side the test is
/// inconclusive with p = 1; with equal means the t-statistic is zero, so
/// p = 1 and the effect is zero; with both variances zero and unequal
/// means the standard error is zero, so p = 0, the difference is
/// significant, and the faster mean wins.  Anything else needs a p-value.
pub open spec fn spec_analyze(confidence_ppm: u32, b: Seq<u64>, c: Seq<u64>) -> AnalysisOutcome {
    if b.len() < 2 || c.len() < 2 {
        AnalysisOutcome::Decided(TestResult {
            p_ppm: PPM,
            statistically_significant: false,
            effect_size: EffectSize::spec_zero(),
            confidence_ppm,
            winner: None,
            baseline_mean: spec_mean(b),
            candidate_mean: spec_mean(c),
        })
    } else if means_equal(b, c) {
        AnalysisOutcome::Decided(TestResult {
            p_ppm: PPM,
            statistically_significant: false,
            effect_size: EffectSize::spec_zero(),
            confidence_ppm,
            winner: None,
            baseline_mean: spec_mean(b),
            candidate_mean: spec_mean(c),
        })
    } else if all_equal(b) && all_equal(c) {
        AnalysisOutcome::Decided(TestResult {
            p_ppm: 0,
            statistically_significant: true,
            effect_size: spec_effect(b, c),
            confidence_ppm,
            winner: if baseline_slower(b, c) {
                Some(Side::Candidate)
            } else {
                Some(Side::Baseline)
            },
            baseline_mean: spec_mean(b),
            candidate_mean: spec_mean(c),
        })
    } else {
        AnalysisOutcome::NeedsPValue
    }
}

/// The verdict derived from an externally computed p-value: significant
/// exactly when `p < 1 - c`, the winner the side with the faster mean when
/// significant, and the exact effect size and means.
pub open spec fn spec_conclude(confidence_ppm: u32, b: Seq<u64>, c: Seq<u64>, p_ppm: u32) -> TestResult {
    let significant = p_ppm < PPM - confidence_ppm;
    TestResult {
        p_ppm,
        statistically_significant: significant,
        effect_size: spec_effect(b, c),
        confidence_ppm,
        winner: if significant {
            if baseline_slower(b, c) {
                Some(Side::Candidate)
            } else {
                Some(Side::Baseline)
            }
        } else {
            None
        },
        baseline_mean: spec_mean(b),
        candidate_mean: spec_mean(c),
    }
}

/// The sum of a duration vector is between zero and the length times the
/// largest duration.
pub proof fn lemma_sum_bound(s: Seq<u64>)
    ensures
        0 <= sum_ns(s) <= s.len() * (u64::MAX as int),
    decreases s.len(),
{
    if s.len() == 0 {
    } else {
        lemma_sum_bound(s.drop_last());
    }
}

/// Appending one sample adds it to the sum.
proof fn lemma_sum_split_last(s: Seq<u64>, i: int)
    requires
        0 <= i < s.len(),
    ensures
        sum_ns(s.subrange(0, i + 1)) == sum_ns(s.subrange(0, i)) + s[i],
{
    assert(s.subrange(0, i + 1).drop_last() =~= s.subrange(0, i));
    assert(s.subrange(0, i + 1).last() == s[i]);
}

/// Sum a duration vector exactly.  The length bound keeps the sum within
/// 128 bits.
fn sum_duration_ns(v: &Vec<u64>) -> (s: u128)
    requires
        v@.len() <= u32::MAX,
    ensures
        s == sum_ns(v@),
{
    let mut acc: u128 = 0;
    let mut i: usize = 0;
    proof {
        assert(v@.subrange(0, 0) =~= Seq::<u64>::empty());
    }
    while i < v.len()
        invariant
            0 <= i <= v@.len() <= u32::MAX,
            acc == sum_ns(v@.subrange(0, i as int)),
        decreases v@.len() - i,
    {
        proof {
            lemma_sum_bound(v@.subrange(0, i as int));
            lemma_sum_split_last(v@, i as int);
            assert((i as int) * (u64::MAX as int) <= (u32::MAX as int) * (u64::MAX as int))
                by (nonlinear_arith)
                requires
                    0 <= i as int <= u32::MAX as int,
            ;
        }
        acc = acc + (v[i] as u128);
        i = i + 1;
    }
    proof {
        assert(v@.subrange(0, v@.len() as int) =~= v@);
    }
    acc
}

/// Whether every sample equals the first.
fn all_equal_vec(v: &Vec<u64>) -> (r: bool)
    ensures
        r == all_equal(v@),
{
    if v.len() == 0 {
        return true;
    }
    let first = v[0];
    let mut i: usize = 1;
    while i < v.len()
        invariant
            1 <= i <= v@.len(),
            v@.len() > 0,
            first == v@[0],
            forall|j: int| 0 <= j < i ==> #[trigger] v@[j] == v@[0],
        decreases v@.len() - i,
    {
        if v[i] != first {
            return false;
        }
        i = i + 1;
    }
    true
}

/// Welch's t-test at a fixed confidence level.
#[derive(Debug, Clone)]
pub struct WelchTTest {
    /// The confidence level for determining statistical significance, in
    /// parts per million.
    pub confidence_ppm: u32,
}

impl WelchTTest {
    /// The confidence level lies strictly between 0 and 1.
    pub open spec fn wf(&self) -> bool {
        0 < self.confidence_ppm < PPM
    }

    /// Create a new Welch's t-test with the given confidence level in
    /// parts per million (950_000 for 95% confidence).
    pub fn new(confidence_ppm: u32) -> (r: WelchTTest)
        requires
            0 < confidence_ppm < PPM,
        ensures
            r.confidence_ppm == confidence_ppm,
            r.wf(),
    {
        WelchTTest { confidence_ppm }
    }
}

/// Multiply a sample sum by the other side's sample count.  The bounds
/// keep the product exact in 128 bits.
fn cross_product(s: u128, n: usize) -> (r: u128)
    requires
        s <= (u32::MAX as int) * (u64::MAX as int),
        n <= u32::MAX,
    ensures
        r == s * n,
{
    proof {
        assert((s as int) * (n as int) <= ((u32::MAX as int) * (u64::MAX as int)) * (u32::MAX as int))
            by (nonlinear_arith)
            requires
                0 <= s as int <= (u32::MAX as int) * (u64::MAX as int),
                0 <= n as int <= u32::MAX as int,
        ;
        assert(((u32::MAX as int) * (u64::MAX as int)) * (u32::MAX as int) < u128::MAX as int);
    }
    s * (n as u128)
}

impl WelchTTest {
    /// The exact phase of the analysis: fixes the verdict whenever it is
    /// decidable in exact arithmetic, and otherwise reports that a p-value
    /// is needed.
    ///
    /// The length bound keeps every intermediate product exact in 128
    /// bits; sample counts in this system are 32-bit values.
    pub fn analyze(&self, baseline: &Vec<u64>, candidate: &Vec<u64>) -> (r: AnalysisOutcome)
        requires
            self.wf(),
            baseline@.len() <= u32::MAX,
            candidate@.len() <= u32::MAX,
        ensures
            r == spec_analyze(self.confidence_ppm, baseline@, candidate@),
            r matches AnalysisOutcome::Decided(t) ==> verdict_sound(t),
    {
        let n1 = baseline.len();
        let n2 = candidate.len();
        let s1 = sum_duration_ns(baseline);
        let s2 = sum_duration_ns(candidate);
        proof {
            lemma_sum_bound(baseline@);
            lemma_sum_bound(candidate@);
            assert((baseline@.len() as int) * (u64::MAX as int) <= (u32::MAX as int) * (u64::MAX as int))
                by (nonlinear_arith)
                requires
                    0 <= baseline@.len() as int <= u32::MAX as int,
            ;
            assert((candidate@.len() as int) * (u64::MAX as int) <= (u32::MAX as int) * (u64::MAX as int))
                by (nonlinear_arith)
                requires
                    0 <= candidate@.len() as int <= u32::MAX as int,
            ;
        }
        let baseline_mean = MeanNs { sum_ns: s1, count: n1 as u32 };
        let candidate_mean = MeanNs { sum_ns: s2, count: n2 as u32 };
        if n1 < 2 || n2 < 2 {
            return AnalysisOutcome::Decided(TestResult {
                p_ppm: PPM,
                statistically_significant: false,
                effect_size: EffectSize::zero(),
                confidence_ppm: self.confidence_ppm,
                winner: None,
                baseline_mean,
                candidate_mean,
            });
        }
        let cross1 = cross_product(s1, n2);
        let cross2 = cross_product(s2, n1);
        if cross1 == cross2 {
            return AnalysisOutcome::Decided(TestResult {
                p_ppm: PPM,
                statistically_significant: false,
                effect_size: EffectSize::zero(),
                confidence_ppm: self.confidence_ppm,
                winner: None,
                baseline_mean,
                candidate_mean,
            });
        }
        if all_equal_vec(baseline) && all_equal_vec(candidate) {
            let effect_size = effect_from_crosses(s1, cross1, cross2);
            proof {
                assert(effect_size == spec_effect(baseline@, candidate@));
            }
            return AnalysisOutcome::Decided(TestResult {
                p_ppm: 0,
                statistically_significant: true,
                effect_size,
                confidence_ppm: self.confidence_ppm,
                winner: if cross1 > cross2 {
                    Some(Side::Candidate)
                } else {
                    Some(Side::Baseline)
                },
                baseline_mean,
                candidate_mean,
            });
        }
        AnalysisOutcome::NeedsPValue
    }

    /// Conclude the analysis from an externally computed two-tailed
    /// p-value (in parts per million) for the same two vectors.
    ///
    /// This is the verified half of the general case: whatever p-value the
    /// Student-t distribution produced, the significance rule, the winner
    /// rule, the effect size and the means are derived from it exactly.
    pub fn analyze_with_p(&self, baseline: &Vec<u64>, candidate: &Vec<u64>, p_ppm: u32) -> (r: TestResult)
        requires
            self.wf(),
            baseline@.len() <= u32::MAX,
            candidate@.len() <= u32::MAX,
            2 <= baseline@.len(),
            2 <= candidate@.len(),
            p_ppm <= PPM,
        ensures
            r == spec_conclude(self.confidence_ppm, baseline@, candidate@, p_ppm),
            verdict_sound(r),
    {
        let n1 = baseline.len();
        let n2 = candidate.len();
        let s1 = sum_duration_ns(baseline);
        let s2 = sum_duration_ns(candidate);
        proof {
            lemma_sum_bound(baseline@);
            lemma_sum_bound(candidate@);
            assert((baseline@.len() as int) * (u64::MAX as int) <= (u32::MAX as int) * (u64::MAX as int))
                by (nonlinear_arith)
                requires
                    0 <= baseline@.len() as int <= u32::MAX as int,
            ;
            assert((candidate@.len() as int) * (u64::MAX as int) <= (u32::MAX as int) * (u64::MAX as int))
                by (nonlinear_arith)
                requires
                    0 <= candidate@.len() as int <= u32::MAX as int,
            ;
        }
        let cross1 = cross_product(s1, n2);
        let cross2 = cross_product(s2, n1);
        let significant = p_ppm < PPM - self.confidence_ppm;
        let effect_size = effect_from_crosses(s1, cross1, cross2);
        TestResult {
            p_ppm,
            statistically_significant: significant,
            effect_size,
            confidence_ppm: self.confidence_ppm,
            winner: if significant {
                if cross1 > cross2 {
                    Some(Side::Candidate)
                } else {
                    Some(Side::Baseline)
                }
            } else {
                None
            },
            baseline_mean: MeanNs { sum_ns: s1, count: n1 as u32 },
            candidate_mean: MeanNs { sum_ns: s2, count: n2 as u32 },
        }
    }
}

/// Build the exact effect size from the baseline sum and the two cross
/// products.
fn effect_from_crosses(s1: u128, cross1: u128, cross2: u128) -> (e: EffectSize)
    ensures
        s1 == 0 ==> e == EffectSize::spec_zero(),
        s1 != 0 && cross1 >= cross2 ==> e == (EffectSize {
            negative: false,
            num: (cross1 - cross2) as u128,
            den: cross1,
        }),
        s1 != 0 && cross1 < cross2 ==> e == (EffectSize {
            negative: true,
            num: (cross2 - cross1) as u128,
            den: cross1,
        }),
{
    if s1 == 0 {
        EffectSize::zero()
    } else if cross1 >= cross2 {
        EffectSize { negative: false, num: cross1 - cross2, den: cross1 }
    } else {
        EffectSize { negative: true, num: cross2 - cross1, den: cross1 }
    }
}

/// Element-wise equal sample vectors of equal length at least two yield a
/// zero effect size, no statistical significance, and no winner.
pub proof fn lemma_identical_samples(confidence_ppm: u32, b: Seq<u64>, c: Seq<u64>)
    requires
        b.len() == c.len(),
        2 <= b.len(),
        forall|i: int| 0 <= i < b.len() ==> b[i] == #[trigger] c[i],
    ensures
        spec_analyze(confidence_ppm, b, c) matches AnalysisOutcome::Decided(t) && {
            &&& t.effect_size == EffectSize::spec_zero()
            &&& !t.statistically_significant
            &&& t.winner is None
        },
{
    assert(b =~= c);
}

/// A declared winner implies a significant difference, which implies the
/// p-value lies below `1 - c` for the confidence level `c` the result was
/// produced at.  Every result this module produces is sound in this sense.
pub proof fn lemma_winner_implies_significant(r: TestResult)
    requires
        verdict_sound(r),
        r.winner is Some,
    ensures
        r.statistically_significant,
        r.p_ppm < PPM - r.confidence_ppm,
{
}

/// Fewer than two samples on either side yield p = 1, no significance,
/// and no winner.
pub proof fn lemma_insufficient_samples(confidence_ppm: u32, b: Seq<u64>, c: Seq<u64>)
    requires
        b.len() < 2 || c.len() < 2,
    ensures
        spec_analyze(confidence_ppm, b, c) matches AnalysisOutcome::Decided(t) && {
            &&& t.p_ppm == PPM
            &&& !t.statistically_significant
            &&& t.winner is None
        },
{
}

/// Two zero-variance vectors with equal means yield p = 1 and no winner.
pub proof fn lemma_zero_variance_equal_means(confidence_ppm: u32, b: Seq<u64>, c: Seq<u64>)
    requires
        2 <= b.len(),
        2 <= c.len(),
        all_equal(b),
        all_equal(c),
        means_equal(b, c),
    ensures
        spec_analyze(confidence_ppm, b, c) matches AnalysisOutcome::Decided(t) && {
            &&& t.p_ppm == PPM
            &&& !t.statistically_significant
            &&& t.winner is None
        },
{
}

/// Two zero-variance vectors with unequal means yield p = 0, a
/// significant difference, and the winner with the faster mean.
pub proof fn lemma_zero_variance_unequal_means(confidence_ppm: u32, b: Seq<u64>, c: Seq<u64>)
    requires
        2 <= b.len(),
        2 <= c.len(),
        all_equal(b),
        all_equal(c),
        !means_equal(b, c),
    ensures
        spec_analyze(confidence_ppm, b, c) matches AnalysisOutcome::Decided(t) && {
            &&& t.p_ppm == 0
            &&& t.statistically_significant
            &&& t.winner == (if baseline_slower(b, c) {
                Some(Side::Candidate)
            } else {
                Some(Side::Baseline)
            })
        },
{
}

impl Default for WelchTTest {
    /// The default test uses a 95% confidence level.
    fn default() -> (r: WelchTTest)
        ensures
            r.confidence_ppm == 950_000,
            r.wf(),
    {
        WelchTTest { confidence_ppm: 950_000 }
    }
}

} // verus!
