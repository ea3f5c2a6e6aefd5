//! Methods of uncertainty propagation, and the quality that a propagated
//! result inherits from its inputs.
use vstd::prelude::*;

use crate::metrology::measurement::MeasurementQuality;

verus! {

/// Method for uncertainty propagation.
#[derive(Debug, Clone, Copy, PartialEq)]
pub enum PropagationMethod {
    /// First-order Taylor series (linear approximation).
    Linear,
    /// Second-order Taylor series.
    SecondOrder,
    /// Monte Carlo simulation.
    MonteCarlo {
        /// Number of Monte Carlo samples.
        n_samples: usize,
    },
    /// Analytical closed-form (when available).
    Analytical,
}

/// Display name of each method.
pub open spec fn method_name(m: PropagationMethod) -> Seq<char> {
    match m {
        PropagationMethod::Linear => "Linear (First-order Taylor)"@,
        PropagationMethod::SecondOrder => "Second-order Taylor"@,
        PropagationMethod::MonteCarlo { .. } => "Monte Carlo"@,
        PropagationMethod::Analytical => "Analytical"@,
    }
}

impl PropagationMethod {
    /// Get default Monte Carlo configuration (10 000 samples).
    pub fn monte_carlo() -> (r: Self)
        ensures
            r == (PropagationMethod::MonteCarlo { n_samples: 10000 }),
    {
        PropagationMethod::MonteCarlo { n_samples: 10000 }
    }

    /// Get method name.
    pub fn name(&self) -> (r: &'static str)
        ensures
            r@ == method_name(*self),
    {
        match self {
            PropagationMethod::Linear => "Linear (First-order Taylor)",
            PropagationMethod::SecondOrder => "Second-order Taylor",
            PropagationMethod::MonteCarlo { .. } => "Monte Carlo",
            PropagationMethod::Analytical => "Analytical",
        }
    }
}

/// Rank of a quality, best (0) to worst (5).
pub open spec fn quality_rank(q: MeasurementQuality) -> nat {
    match q {
        MeasurementQuality::Calibrated => 0,
        MeasurementQuality::Validated => 1,
        MeasurementQuality::Estimated => 2,
        MeasurementQuality::Interpolated => 3,
        MeasurementQuality::Extrapolated => 4,
        MeasurementQuality::Unknown => 5,
    }
}

/// Ranks follow the declared order of qualities, best to worst: calibrated,
/// validated, estimated, interpolated, extrapolated, unknown; each is
/// strictly worse than the one before.
pub proof fn lemma_quality_rank_order()
    ensures
        quality_rank(MeasurementQuality::Calibrated) < quality_rank(MeasurementQuality::Validated),
        quality_rank(MeasurementQuality::Validated) < quality_rank(MeasurementQuality::Estimated),
        quality_rank(MeasurementQuality::Estimated) < quality_rank(
            MeasurementQuality::Interpolated,
        ),
        quality_rank(MeasurementQuality::Interpolated) < quality_rank(
            MeasurementQuality::Extrapolated,
        ),
        quality_rank(MeasurementQuality::Extrapolated) < quality_rank(MeasurementQuality::Unknown),
{
}

/// The position of a quality in the declared order, best first.
pub open spec fn declared_position(q: MeasurementQuality) -> int {
    if q == MeasurementQuality::Calibrated {
        0
    } else if q == MeasurementQuality::Validated {
        1
    } else if q == MeasurementQuality::Estimated {
        2
    } else if q == MeasurementQuality::Interpolated {
        3
    } else if q == MeasurementQuality::Extrapolated {
        4
    } else {
        5
    }
}

/// A derived quality is never better, in the declared order, than any of
/// the inputs: whatever quality is no better than every input by rank is
/// no better than every input by declared position.
pub proof fn lemma_derived_never_better(qs: Seq<MeasurementQuality>, r: MeasurementQuality)
    requires
        forall|i: int| 0 <= i < qs.len() ==> quality_rank(#[trigger] qs[i]) <= quality_rank(r),
    ensures
        forall|i: int| 0 <= i < qs.len() ==> declared_position(#[trigger] qs[i]) <= declared_position(r),
{
    lemma_quality_rank_order();
    assert forall|i: int| 0 <= i < qs.len() implies declared_position(#[trigger] qs[i])
        <= declared_position(r) by {
        assert(quality_rank(qs[i]) <= quality_rank(r));
    }
}

fn rank_of(q: &MeasurementQuality) -> (r: u8)
    ensures
        r == quality_rank(*q),
{
    match q {
        MeasurementQuality::Calibrated => 0,
        MeasurementQuality::Validated => 1,
        MeasurementQuality::Estimated => 2,
        MeasurementQuality::Interpolated => 3,
        MeasurementQuality::Extrapolated => 4,
        MeasurementQuality::Unknown => 5,
    }
}

/// The quality of a result propagated from inputs of the given qualities:
/// it degrades to the worst of them, and is `Unknown` without inputs.
pub fn derive_quality(qualities: &[MeasurementQuality]) -> (r: MeasurementQuality)
    ensures
        qualities@.len() == 0 ==> r == MeasurementQuality::Unknown,
        qualities@.len() > 0 ==> qualities@.contains(r),
        forall|i: int| 0 <= i < qualities@.len() ==> quality_rank(#[trigger] qualities@[i])
            <= quality_rank(r),
{
    if qualities.len() == 0 {
        return MeasurementQuality::Unknown;
    }
    let mut worst = qualities[0];
    let mut i: usize = 1;
    while i < qualities.len()
        invariant
            1 <= i <= qualities@.len(),
            qualities@.contains(worst),
            forall|j: int| 0 <= j < i ==> quality_rank(#[trigger] qualities@[j]) <= quality_rank(
                worst,
            ),
        decreases qualities@.len() - i,
    {
        if rank_of(&qualities[i]) >= rank_of(&worst) {
            worst = qualities[i];
        }
        i = i + 1;
    }
    worst
}

/// Ranks tell qualities apart, so the worst quality of the inputs is
/// determined: any two results that each are among the inputs and no better
/// than any of them are the same quality.
pub proof fn lemma_derived_quality_unique(
    qs: Seq<MeasurementQuality>,
    a: MeasurementQuality,
    b: MeasurementQuality,
)
    requires
        qs.contains(a),
        qs.contains(b),
        forall|i: int| 0 <= i < qs.len() ==> quality_rank(#[trigger] qs[i]) <= quality_rank(a),
        forall|i: int| 0 <= i < qs.len() ==> quality_rank(#[trigger] qs[i]) <= quality_rank(b),
    ensures
        a == b,
{
    let ia = choose|i: int| 0 <= i < qs.len() && qs[i] == a;
    let ib = choose|i: int| 0 <= i < qs.len() && qs[i] == b;
    assert(quality_rank(qs[ia]) <= quality_rank(b));
    assert(quality_rank(qs[ib]) <= quality_rank(a));
}

} // verus!
