//! Hitter profiles and the outcome distribution derived from them.
use vstd::prelude::*;

verus! {

/// The fixed-point value of a probability of one.
pub const RATE_SCALE: u64 = 1000;

// League apportioning of the power above average, `slg - avg`: a share of
// `DOUBLE_SHARE / SHARE_TOTAL` goes to doubles, and so on. The three shares add
// up to 100, so per at-bat the extra-base hits take `(slg - avg) / 1.83`.

/// Doubles' share of the power above average, over `SHARE_TOTAL`.
pub const DOUBLE_SHARE: u64 = 56;
/// Triples' share of the power above average, over `SHARE_TOTAL`.
pub const TRIPLE_SHARE: u64 = 5;
/// Home runs' share of the power above average, over `SHARE_TOTAL`.
pub const HOME_RUN_SHARE: u64 = 39;
/// The common denominator of the three shares.
pub const SHARE_TOTAL: u64 = 183;

/// A hitter's batting average, on-base percentage and slugging percentage, each
/// in units of `1 / RATE_SCALE`.
#[derive(Debug, Clone, Copy, PartialEq, Eq, Structural)]
pub struct Player {
    pub avg: u64,
    pub obp: u64,
    pub slg: u64,
}

/// Cumulative outcome thresholds, as numerators over `denominator`: a uniform draw
/// below `walk` is a walk, below `single` a single, and so on; a draw at or above
/// `home_run` is an out.
#[derive(Debug, Clone, Copy, PartialEq, Eq, Structural)]
pub struct PlateAppearanceDistribution {
    pub walk: u64,
    pub single: u64,
    pub double: u64,
    pub triple: u64,
    pub home_run: u64,
    pub denominator: u64,
}

/// A profile whose derived outcome rates are not all probabilities.
#[derive(Debug, Clone, Copy, PartialEq, Eq, Structural)]
pub enum InvalidProfile {
    /// The average exceeds the on-base percentage: walks would be negative.
    AvgAboveObp,
    /// The on-base percentage is one or more: nobody is ever out.
    ObpNotBelowOne,
    /// The slugging percentage is below the average: extra-base hits would be negative.
    SlgBelowAvg,
    /// The power above average exceeds what the average leaves for singles.
    NegativeSingles,
}

/// Power above average, `slg - avg`, in rate units.
pub open spec fn power(p: Player) -> int {
    p.slg - p.avg
}

/// Singles per at-bat, scaled by `RATE_SCALE * SHARE_TOTAL`.
pub open spec fn singles_per_at_bat(p: Player) -> int {
    SHARE_TOTAL * p.avg - (DOUBLE_SHARE + TRIPLE_SHARE + HOME_RUN_SHARE) * power(p)
}

/// Why a profile is refused, in the order the checks are made.
pub open spec fn profile_error(p: Player) -> Option<InvalidProfile> {
    if p.avg > p.obp {
        Some(InvalidProfile::AvgAboveObp)
    } else if p.obp >= RATE_SCALE {
        Some(InvalidProfile::ObpNotBelowOne)
    } else if p.slg < p.avg {
        Some(InvalidProfile::SlgBelowAvg)
    } else if singles_per_at_bat(p) < 0 {
        Some(InvalidProfile::NegativeSingles)
    } else {
        None
    }
}

pub open spec fn valid_profile(p: Player) -> bool {
    profile_error(p).is_none()
}

/// The common denominator of the per-plate-appearance rates:
/// `RATE_SCALE * SHARE_TOTAL * (1 - avg)`.
pub open spec fn rate_denominator(p: Player) -> int {
    RATE_SCALE * SHARE_TOTAL * (RATE_SCALE - p.avg)
}

/// Walk rate `(obp - avg) / (1 - avg)`, over `rate_denominator`.
pub open spec fn walk_rate(p: Player) -> int {
    RATE_SCALE * SHARE_TOTAL * (p.obp - p.avg)
}

/// A per-at-bat rate, scaled by `RATE_SCALE * SHARE_TOTAL`, turned into a
/// per-plate-appearance rate over `rate_denominator`. With `w = (obp - avg) / (1 - obp)`
/// walks per at-bat, at-bats are the share `1 / (1 + w) = (1 - obp) / (1 - avg)`
/// of plate appearances, and `w / (1 + w)` is the walk rate above.
pub open spec fn per_plate_appearance(per_at_bat: int, p: Player) -> int {
    per_at_bat * (RATE_SCALE - p.obp)
}

pub open spec fn single_rate(p: Player) -> int {
    per_plate_appearance(singles_per_at_bat(p), p)
}

pub open spec fn double_rate(p: Player) -> int {
    per_plate_appearance(DOUBLE_SHARE * power(p), p)
}

pub open spec fn triple_rate(p: Player) -> int {
    per_plate_appearance(TRIPLE_SHARE * power(p), p)
}

pub open spec fn home_run_rate(p: Player) -> int {
    per_plate_appearance(HOME_RUN_SHARE * power(p), p)
}

/// The distribution of a valid profile: the five rates stacked in order.
pub open spec fn distribution_of(p: Player) -> PlateAppearanceDistribution {
    let w = walk_rate(p);
    let s = w + single_rate(p);
    let d = s + double_rate(p);
    let t = d + triple_rate(p);
    let h = t + home_run_rate(p);
    PlateAppearanceDistribution {
        walk: w as u64,
        single: s as u64,
        double: d as u64,
        triple: t as u64,
        home_run: h as u64,
        denominator: rate_denominator(p) as u64,
    }
}

impl PlateAppearanceDistribution {
    /// Thresholds that ascend and end below the denominator, which is positive.
    pub open spec fn wf(self) -> bool {
        &&& self.walk <= self.single
        &&& self.single <= self.double
        &&& self.double <= self.triple
        &&& self.triple <= self.home_run
        &&& self.home_run < self.denominator
    }
}

proof fn lemma_rates_bounded(p: Player)
    requires
        valid_profile(p),
    ensures
        0 <= walk_rate(p) <= 183_000_000,
        0 <= single_rate(p) <= 183_000_000,
        0 <= double_rate(p) <= 56_000_000 * 3,
        0 <= triple_rate(p) <= 5_000_000 * 3,
        0 <= home_run_rate(p) <= 39_000_000 * 3,
        0 < rate_denominator(p) <= 183_000_000,
        walk_rate(p) + single_rate(p) + double_rate(p) + triple_rate(p) + home_run_rate(p)
            == SHARE_TOTAL * p.obp * (RATE_SCALE - p.avg),
        SHARE_TOTAL * p.obp * (RATE_SCALE - p.avg) < rate_denominator(p),
{
    let a = p.avg as int;
    let o = p.obp as int;
    let pw = power(p);
    assert(0 <= pw <= 2 * a) by (nonlinear_arith)
        requires pw == p.slg - a, 183 * a - 100 * pw >= 0, p.slg >= a;
    assert(0 <= (183 * a - 100 * pw) * (1000 - o) <= 183_000 * 1000) by (nonlinear_arith)
        requires 0 <= a <= o < 1000, 0 <= 183 * a - 100 * pw <= 183 * a;
    assert(0 <= pw * (1000 - o) <= 3000 * 1000) by (nonlinear_arith)
        requires 0 <= a <= o < 1000, 0 <= pw <= 2 * a;
    assert(0 <= 56 * pw * (1000 - o) <= 56_000_000 * 3) by (nonlinear_arith)
        requires 0 <= pw * (1000 - o) <= 3000 * 1000;
    assert(0 <= 5 * pw * (1000 - o) <= 5_000_000 * 3) by (nonlinear_arith)
        requires 0 <= pw * (1000 - o) <= 3000 * 1000;
    assert(0 <= 39 * pw * (1000 - o) <= 39_000_000 * 3) by (nonlinear_arith)
        requires 0 <= pw * (1000 - o) <= 3000 * 1000;
    assert(183_000 * (o - a) + (183 * a - 100 * pw) * (1000 - o) + 56 * pw * (1000 - o)
        + 5 * pw * (1000 - o) + 39 * pw * (1000 - o) == 183 * o * (1000 - a)) by (nonlinear_arith);
    assert(183 * o * (1000 - a) < 1000 * 183 * (1000 - a)) by (nonlinear_arith)
        requires 0 <= o < 1000, a < 1000;
    assert(0 < 183_000 * (1000 - a) <= 183_000_000) by (nonlinear_arith)
        requires 0 <= a < 1000;
}

/// The derived rates are probabilities: the thresholds ascend, stay below one,
/// and the five component rates add up to the on-base percentage exactly.
pub proof fn lemma_distribution_valid(p: Player)
    requires
        valid_profile(p),
    ensures
        distribution_of(p).wf(),
        distribution_of(p).home_run as int * RATE_SCALE == p.obp as int * distribution_of(p).denominator,
{
    lemma_rates_bounded(p);
    let a = p.avg as int;
    let o = p.obp as int;
    assert(183 * o * (1000 - a) * 1000 == o * (1000 * 183 * (1000 - a))) by (nonlinear_arith);
}

impl Player {
    /// The outcome distribution of this hitter, or why its rates are not
    /// probabilities.
    pub fn distribution(&self) -> (r: Result<PlateAppearanceDistribution, InvalidProfile>)
        ensures
            match profile_error(*self) {
                Some(e) => r == Err::<PlateAppearanceDistribution, InvalidProfile>(e),
                None => r == Ok::<PlateAppearanceDistribution, InvalidProfile>(distribution_of(*self)),
            },
            r is Ok ==> r->Ok_0.wf(),
    {
        if self.avg > self.obp {
            return Err(InvalidProfile::AvgAboveObp);
        }
        if self.obp >= RATE_SCALE {
            return Err(InvalidProfile::ObpNotBelowOne);
        }
        if self.slg < self.avg {
            return Err(InvalidProfile::SlgBelowAvg);
        }
        let power = self.slg - self.avg;
        // Singles go negative once the power exceeds 1.83 times the average; the
        // first test, implied by the second, only keeps the product in range.
        if power > 2 * self.avg
            || (DOUBLE_SHARE + TRIPLE_SHARE + HOME_RUN_SHARE) * power > SHARE_TOTAL * self.avg {
            return Err(InvalidProfile::NegativeSingles);
        }
        proof {
            lemma_rates_bounded(*self);
        }
        let at_bat_share = RATE_SCALE - self.obp;
        let walk = RATE_SCALE * SHARE_TOTAL * (self.obp - self.avg);
        let single = (SHARE_TOTAL * self.avg - (DOUBLE_SHARE + TRIPLE_SHARE + HOME_RUN_SHARE) * power)
            * at_bat_share;
        let double = DOUBLE_SHARE * power * at_bat_share;
        let triple = TRIPLE_SHARE * power * at_bat_share;
        let home_run = HOME_RUN_SHARE * power * at_bat_share;
        Ok(PlateAppearanceDistribution {
            walk,
            single: walk + single,
            double: walk + single + double,
            triple: walk + single + double + triple,
            home_run: walk + single + double + triple + home_run,
            denominator: RATE_SCALE * SHARE_TOTAL * (RATE_SCALE - self.avg),
        })
    }
}

} // verus!
