//! Plate-appearance outcomes and how a uniform draw picks one.
use vstd::prelude::*;

use crate::profile::PlateAppearanceDistribution;
use crate::random::draw_below;

verus! {

/// What one plate appearance ends in.
#[derive(Debug, Clone, Copy, PartialEq, Eq, Structural)]
pub enum PlateAppearanceResult {
    Walk,
    Single,
    Double,
    Triple,
    HomeRun,
    Out,
}

/// The outcome whose interval holds the draw `x`: the first threshold that `x`
/// lies below, and `Out` above them all.
pub open spec fn outcome_at(d: PlateAppearanceDistribution, x: int) -> PlateAppearanceResult {
    if x < d.walk {
        PlateAppearanceResult::Walk
    } else if x < d.single {
        PlateAppearanceResult::Single
    } else if x < d.double {
        PlateAppearanceResult::Double
    } else if x < d.triple {
        PlateAppearanceResult::Triple
    } else if x < d.home_run {
        PlateAppearanceResult::HomeRun
    } else {
        PlateAppearanceResult::Out
    }
}

/// With ascending thresholds the intervals partition the draws: each threshold
/// belongs to the interval above it, and every draw at or past the last one is
/// an out.
pub proof fn lemma_threshold_partition(d: PlateAppearanceDistribution, x: int)
    requires
        d.wf(),
    ensures
        0 <= x < d.walk ==> outcome_at(d, x) == PlateAppearanceResult::Walk,
        d.walk <= x < d.single ==> outcome_at(d, x) == PlateAppearanceResult::Single,
        d.single <= x < d.double ==> outcome_at(d, x) == PlateAppearanceResult::Double,
        d.double <= x < d.triple ==> outcome_at(d, x) == PlateAppearanceResult::Triple,
        d.triple <= x < d.home_run ==> outcome_at(d, x) == PlateAppearanceResult::HomeRun,
        d.home_run <= x ==> outcome_at(d, x) == PlateAppearanceResult::Out,
        d.home_run < d.denominator ==> outcome_at(d, d.denominator - 1) == PlateAppearanceResult::Out,
{
}

impl PlateAppearanceResult {
    /// The outcome that the draw `x`, a numerator over `dist.denominator`, falls on.
    pub fn from_draw(dist: &PlateAppearanceDistribution, x: u64) -> (r: Self)
        ensures
            r == outcome_at(*dist, x as int),
    {
        if x < dist.walk {
            PlateAppearanceResult::Walk
        } else if x < dist.single {
            PlateAppearanceResult::Single
        } else if x < dist.double {
            PlateAppearanceResult::Double
        } else if x < dist.triple {
            PlateAppearanceResult::Triple
        } else if x < dist.home_run {
            PlateAppearanceResult::HomeRun
        } else {
            PlateAppearanceResult::Out
        }
    }

    /// One plate appearance: a uniform draw below the denominator, read off the
    /// thresholds.
    pub fn sample(dist: &PlateAppearanceDistribution, rng: &mut rand::rngs::StdRng) -> (r: Self)
        requires
            dist.denominator > 0,
        ensures
            exists|x: int| 0 <= x < dist.denominator && r == outcome_at(*dist, x),
    {
        let x = draw_below(rng, dist.denominator);
        Self::from_draw(dist, x)
    }

    /// Whether the outcome is a hit.
    pub open spec fn is_hit(self) -> bool {
        !(self is Walk || self is Out)
    }

    /// The bases a hit is worth, zero for a walk or an out.
    pub open spec fn bases(self) -> nat {
        match self {
            PlateAppearanceResult::Single => 1,
            PlateAppearanceResult::Double => 2,
            PlateAppearanceResult::Triple => 3,
            PlateAppearanceResult::HomeRun => 4,
            _ => 0,
        }
    }
}

} // verus!
