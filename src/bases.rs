//! The base-out state and how a plate appearance moves the runners.
use vstd::prelude::*;

use crate::outcome::PlateAppearanceResult;
use crate::random::draw_ratio;

verus! {

// Chances, in percent, of the runner advancement events.

/// A runner on first reaches third on a single.
pub const FIRST_TO_THIRD_PERCENT: u32 = 33;
/// A runner on second scores on a single.
pub const SCORE_FROM_SECOND_PERCENT: u32 = 60;
/// A runner on first scores on a double.
pub const SCORE_FROM_FIRST_PERCENT: u32 = 42;
/// With a runner on second, the throw goes home and the batter takes second.
pub const EXTRA_BASE_FROM_THROW_PERCENT: u32 = 7;
/// A runner is thrown out at home on a single from second. No rule consults it
/// yet: it is kept as the known rate of a possible refinement.
pub const THROWN_OUT_AT_HOME_PERCENT: u32 = 5;

/// Runners on base and outs in the half-inning.
#[derive(Debug, Clone, Copy, PartialEq, Eq, Structural)]
pub struct BaseOutState {
    pub on_1st: bool,
    pub on_2nd: bool,
    pub on_3rd: bool,
    pub outs: u8,
}

/// The independent runner-advancement events of one plate appearance.
#[derive(Debug, Clone, Copy, PartialEq, Eq, Structural)]
pub struct AdvanceDraws {
    pub first_to_third: bool,
    pub second_to_home: bool,
    pub first_to_home: bool,
    pub extra_base_on_throw: bool,
}

pub open spec fn count(b: bool) -> nat {
    if b { 1 } else { 0 }
}

impl BaseOutState {
    /// An inning still in play: fewer than three outs.
    pub open spec fn active(self) -> bool {
        self.outs < 3
    }

    /// How many runners are on base.
    pub open spec fn runners(self) -> nat {
        count(self.on_1st) + count(self.on_2nd) + count(self.on_3rd)
    }

    pub open spec fn bases(self, first: bool, second: bool, third: bool) -> BaseOutState {
        BaseOutState { on_1st: first, on_2nd: second, on_3rd: third, outs: self.outs }
    }

    /// The state after the outcome `o` with advancement events `d`: the outs go up
    /// by one on an out, and the runners move as the outcome forces and the events
    /// allow.
    pub open spec fn next(self, o: PlateAppearanceResult, d: AdvanceDraws) -> BaseOutState {
        let (f, s, t) = (self.on_1st, self.on_2nd, self.on_3rd);
        match o {
            PlateAppearanceResult::Out => BaseOutState { outs: (self.outs + 1) as u8, ..self },
            PlateAppearanceResult::Walk => self.bases(true, f || s, (f && s) || t),
            PlateAppearanceResult::Single => if s && d.extra_base_on_throw {
                self.bases(false, true, f || (s && !d.second_to_home))
            } else {
                self.bases(
                    true,
                    f && !d.first_to_third,
                    (f && d.first_to_third) || (s && !d.second_to_home),
                )
            },
            PlateAppearanceResult::Double => self.bases(false, true, f && !d.first_to_home),
            PlateAppearanceResult::Triple => self.bases(false, false, true),
            PlateAppearanceResult::HomeRun => self.bases(false, false, false),
        }
    }

    /// The runs that the outcome `o` with advancement events `d` brings home.
    pub open spec fn runs(self, o: PlateAppearanceResult, d: AdvanceDraws) -> nat {
        let (f, s, t) = (self.on_1st, self.on_2nd, self.on_3rd);
        match o {
            PlateAppearanceResult::Out => 0,
            PlateAppearanceResult::Walk => count(f && s && t),
            PlateAppearanceResult::Single => count(s && d.second_to_home) + count(t),
            PlateAppearanceResult::Double => count(f && d.first_to_home) + count(s) + count(t),
            PlateAppearanceResult::Triple => self.runners(),
            PlateAppearanceResult::HomeRun => 1 + self.runners(),
        }
    }

    fn occupied(f: bool, s: bool, t: bool) -> (r: usize)
        ensures
            r == count(f) + count(s) + count(t),
    {
        let mut r: usize = 0;
        if f {
            r += 1;
        }
        if s {
            r += 1;
        }
        if t {
            r += 1;
        }
        r
    }

    /// Bases empty, nobody out.
    pub fn new() -> (r: Self)
        ensures
            r == (BaseOutState { on_1st: false, on_2nd: false, on_3rd: false, outs: 0 }),
    {
        BaseOutState { on_1st: false, on_2nd: false, on_3rd: false, outs: 0 }
    }

    /// The state after the outcome `result`, and the runs scored, when the
    /// advancement events came out as `draws`.
    pub fn transition(self, result: PlateAppearanceResult, draws: AdvanceDraws) -> (r: (Self, usize))
        requires
            self.active(),
        ensures
            r.0 == self.next(result, draws),
            r.1 == self.runs(result, draws),
    {
        let (f, s, t) = (self.on_1st, self.on_2nd, self.on_3rd);
        let mut runs: usize = 0;
        let mut next = self;
        match result {
            PlateAppearanceResult::Out => {
                next.outs = self.outs + 1;
            },
            PlateAppearanceResult::Walk => {
                next.on_1st = true;
                next.on_2nd = f || s;
                next.on_3rd = (f && s) || t;
                if f && s && t {
                    runs = 1;
                }
            },
            PlateAppearanceResult::Single => {
                if s && draws.extra_base_on_throw {
                    next.on_1st = false;
                    next.on_2nd = true;
                    next.on_3rd = f || (s && !draws.second_to_home);
                } else {
                    next.on_1st = true;
                    next.on_2nd = f && !draws.first_to_third;
                    next.on_3rd = (f && draws.first_to_third) || (s && !draws.second_to_home);
                }
                if s && draws.second_to_home {
                    runs += 1;
                }
                if t {
                    runs += 1;
                }
            },
            PlateAppearanceResult::Double => {
                next.on_1st = false;
                next.on_2nd = true;
                next.on_3rd = f && !draws.first_to_home;
                if f && draws.first_to_home {
                    runs += 1;
                }
                if s {
                    runs += 1;
                }
                if t {
                    runs += 1;
                }
            },
            PlateAppearanceResult::Triple => {
                next.on_1st = false;
                next.on_2nd = false;
                next.on_3rd = true;
                runs = Self::occupied(f, s, t);
            },
            PlateAppearanceResult::HomeRun => {
                next.on_1st = false;
                next.on_2nd = false;
                next.on_3rd = false;
                runs = 1 + Self::occupied(f, s, t);
            },
        }
        (next, runs)
    }

    /// Moves the runners for the outcome `result`, drawing each advancement event
    /// from `rng` at its chance, whether or not the outcome consults it.
    pub fn move_runners(self, result: PlateAppearanceResult, rng: &mut rand::rngs::StdRng) -> (r: (
        Self,
        usize,
    ))
        requires
            self.active(),
        ensures
            exists|d: AdvanceDraws| r.0 == self.next(result, d) && r.1 == self.runs(result, d),
    {
        let draws = AdvanceDraws {
            first_to_third: draw_ratio(rng, FIRST_TO_THIRD_PERCENT, 100),
            second_to_home: draw_ratio(rng, SCORE_FROM_SECOND_PERCENT, 100),
            first_to_home: draw_ratio(rng, SCORE_FROM_FIRST_PERCENT, 100),
            extra_base_on_throw: draw_ratio(rng, EXTRA_BASE_FROM_THROW_PERCENT, 100),
        };
        self.transition(result, draws)
    }
}

/// A walk with the bases empty puts the batter on first and scores nobody; a walk
/// with the bases loaded forces one run in and leaves them loaded.
pub proof fn lemma_walk_forces(s: BaseOutState, d: AdvanceDraws)
    requires
        s.active(),
    ensures
        s.runners() == 0 ==> s.next(PlateAppearanceResult::Walk, d) == s.bases(true, false, false)
            && s.runs(PlateAppearanceResult::Walk, d) == 0,
        s.runners() == 3 ==> s.next(PlateAppearanceResult::Walk, d) == s
            && s.runs(PlateAppearanceResult::Walk, d) == 1,
{
}

/// A home run clears the bases and scores the batter and every runner.
pub proof fn lemma_home_run_clears(s: BaseOutState, d: AdvanceDraws)
    ensures
        s.next(PlateAppearanceResult::HomeRun, d).runners() == 0,
        s.next(PlateAppearanceResult::HomeRun, d).outs == s.outs,
        s.runs(PlateAppearanceResult::HomeRun, d) == 1 + s.runners(),
{
}

/// An out adds exactly one out and every other outcome adds none, so three outs
/// from a fresh state end the inning, whatever the advancement events.
pub proof fn lemma_outs_advance(s: BaseOutState, o: PlateAppearanceResult, d: AdvanceDraws, d1: AdvanceDraws, d2: AdvanceDraws, d3: AdvanceDraws)
    requires
        s.active(),
    ensures
        o is Out ==> s.next(o, d).outs == s.outs + 1,
        !(o is Out) ==> s.next(o, d).outs == s.outs,
        ({
            let fresh = BaseOutState { on_1st: false, on_2nd: false, on_3rd: false, outs: 0 };
            let one = fresh.next(PlateAppearanceResult::Out, d1);
            let two = one.next(PlateAppearanceResult::Out, d2);
            let three = two.next(PlateAppearanceResult::Out, d3);
            one.active() && two.active() && three.outs == 3 && !three.active()
        }),
{
}

} // verus!
