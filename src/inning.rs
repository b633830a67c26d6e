//! Innings and whole-hitter simulations.
use vstd::prelude::*;

use crate::bases::{AdvanceDraws, BaseOutState};
use crate::outcome::{outcome_at, PlateAppearanceResult};
use crate::profile::{distribution_of, profile_error, InvalidProfile, PlateAppearanceDistribution, Player};

verus! {

/// An inning ends at its third out, or, however unlikely, after this many plate
/// appearances, a bound that keeps every counter of a simulation in range.
pub const MAX_INNING_PLATE_APPEARANCES: usize = 1_000_000;

/// The counters of one inning.
#[derive(Debug, Clone, Copy, PartialEq, Eq, Structural)]
pub struct InningResult {
    pub runs: usize,
    pub plate_appearances: usize,
    pub at_bats: usize,
    pub hits: usize,
    pub total_bases: usize,
    pub walks: usize,
}

/// One hitter's simulation, as handed to the output writer.
#[derive(Debug, Clone, Copy, PartialEq, Eq, Structural)]
pub struct PlayerResult {
    pub avg: u64,
    pub obp: u64,
    pub slg: u64,
    pub num_innings: u64,
    pub runs: u64,
}

/// How often each outcome came up in a run of plate appearances.
#[derive(Debug, Clone, Copy, PartialEq, Eq, Structural)]
pub struct OutcomeCounts {
    pub walks: usize,
    pub singles: usize,
    pub doubles: usize,
    pub triples: usize,
    pub home_runs: usize,
    pub outs: usize,
}

impl InningResult {
    /// Counters that agree with each other: every plate appearance is an at-bat
    /// or a walk, every hit is an at-bat worth one to four bases.
    pub open spec fn wf(self) -> bool {
        &&& self.hits <= self.at_bats
        &&& self.at_bats + self.walks == self.plate_appearances
        &&& self.hits <= self.total_bases <= 4 * self.hits
    }

    /// The counters after one more plate appearance that ended in `o`.
    pub open spec fn recorded(self, o: PlateAppearanceResult) -> InningResult {
        InningResult {
            plate_appearances: (self.plate_appearances + 1) as usize,
            at_bats: if o is Walk { self.at_bats } else { (self.at_bats + 1) as usize },
            walks: if o is Walk { (self.walks + 1) as usize } else { self.walks },
            hits: if o.is_hit() { (self.hits + 1) as usize } else { self.hits },
            total_bases: (self.total_bases + o.bases()) as usize,
            ..self
        }
    }

    /// All counters at zero.
    pub fn new() -> (r: Self)
        ensures
            r == (InningResult { runs: 0, plate_appearances: 0, at_bats: 0, hits: 0, total_bases: 0, walks: 0 }),
            r.wf(),
    {
        InningResult { runs: 0, plate_appearances: 0, at_bats: 0, hits: 0, total_bases: 0, walks: 0 }
    }

    /// Counts one plate appearance that ended in `result`.
    pub fn record(&mut self, result: PlateAppearanceResult)
        requires
            old(self).wf(),
            old(self).plate_appearances < MAX_INNING_PLATE_APPEARANCES,
        ensures
            *final(self) == old(self).recorded(result),
            final(self).wf(),
    {
        self.plate_appearances += 1;
        match result {
            PlateAppearanceResult::Walk => {
                self.walks += 1;
            },
            PlateAppearanceResult::Out => {
                self.at_bats += 1;
            },
            PlateAppearanceResult::Single => {
                self.at_bats += 1;
                self.hits += 1;
                self.total_bases += 1;
            },
            PlateAppearanceResult::Double => {
                self.at_bats += 1;
                self.hits += 1;
                self.total_bases += 2;
            },
            PlateAppearanceResult::Triple => {
                self.at_bats += 1;
                self.hits += 1;
                self.total_bases += 3;
            },
            PlateAppearanceResult::HomeRun => {
                self.at_bats += 1;
                self.hits += 1;
                self.total_bases += 4;
            },
        }
    }
}

/// A plate appearance brings one person into play, the batter: afterwards the
/// runs scored, the runners left on base and the outs add up to at most one more
/// than the runners and outs before.
pub proof fn lemma_conservation(s: BaseOutState, o: PlateAppearanceResult, d: AdvanceDraws)
    requires
        s.active(),
    ensures
        s.runs(o, d) + s.next(o, d).runners() + s.next(o, d).outs <= s.runners() + s.outs + 1,
        s.next(o, d).outs <= 3,
{
}

/// Bases empty, nobody out.
pub open spec fn fresh_state() -> BaseOutState {
    BaseOutState { on_1st: false, on_2nd: false, on_3rd: false, outs: 0 }
}

/// All counters at zero.
pub open spec fn zero_tally() -> InningResult {
    InningResult { runs: 0, plate_appearances: 0, at_bats: 0, hits: 0, total_bases: 0, walks: 0 }
}

/// One plate appearance ending in `o` with advancement events `d`: counted, then
/// the runners moved and the runs they bring home added.
pub open spec fn step(st: (BaseOutState, InningResult), o: PlateAppearanceResult, d: AdvanceDraws) -> (
    BaseOutState,
    InningResult,
) {
    let t = st.1.recorded(o);
    (st.0.next(o, d), InningResult { runs: (t.runs + st.0.runs(o, d)) as usize, ..t })
}

/// The state and counters of an inning whose plate appearances drew `xs`, each
/// read off `dist`, and advancement events `ds`, starting from a fresh state.
pub open spec fn play(dist: PlateAppearanceDistribution, xs: Seq<int>, ds: Seq<AdvanceDraws>) -> (
    BaseOutState,
    InningResult,
)
    decreases xs.len(),
{
    if xs.len() == 0 {
        (fresh_state(), zero_tally())
    } else {
        step(play(dist, xs.drop_last(), ds.drop_last()), outcome_at(dist, xs.last()), ds.last())
    }
}

/// `r` is the tally of an inning played with the draws `xs` and `ds`: every draw
/// is below the denominator, every plate appearance comes while fewer than three
/// are out, and the inning ends at the third out or at the plate-appearance bound.
pub open spec fn is_inning(dist: PlateAppearanceDistribution, xs: Seq<int>, ds: Seq<AdvanceDraws>, r: InningResult) -> bool {
    &&& xs.len() == r.plate_appearances
    &&& ds.len() == r.plate_appearances
    &&& forall|i: int| 0 <= i < xs.len() ==> 0 <= #[trigger] xs[i] < dist.denominator
    &&& forall|k: int| 0 <= k < xs.len() ==> (#[trigger] play(dist, xs.take(k), ds.take(k))).0.active()
    &&& play(dist, xs, ds).1 == r
    &&& (play(dist, xs, ds).0.outs == 3 || r.plate_appearances == MAX_INNING_PLATE_APPEARANCES)
}

/// `r` is the tally of some inning that `dist` can produce.
pub open spec fn possible_inning(dist: PlateAppearanceDistribution, r: InningResult) -> bool {
    exists|xs: Seq<int>, ds: Seq<AdvanceDraws>| is_inning(dist, xs, ds, r)
}

proof fn lemma_all_outs(dist: PlateAppearanceDistribution, xs: Seq<int>, ds: Seq<AdvanceDraws>)
    requires
        dist.wf(),
        dist.home_run == 0,
        forall|i: int| 0 <= i < xs.len() ==> 0 <= #[trigger] xs[i],
        xs.len() <= 3,
    ensures
        play(dist, xs, ds) == (BaseOutState { outs: xs.len() as u8, ..fresh_state() }, InningResult {
            plate_appearances: xs.len() as usize,
            at_bats: xs.len() as usize,
            ..zero_tally()
        }),
    decreases xs.len(),
{
    if xs.len() > 0 {
        let init = xs.drop_last();
        assert forall|i: int| 0 <= i < init.len() implies 0 <= #[trigger] init[i] by {
            assert(init[i] == xs[i]);
        }
        lemma_all_outs(dist, init, ds.drop_last());
        assert(outcome_at(dist, xs.last()) == PlateAppearanceResult::Out);
    }
}

/// A hitter who never reaches base, every threshold at zero, bats exactly three
/// times an inning, makes three outs and scores nothing.
pub proof fn lemma_never_on_base_inning(dist: PlateAppearanceDistribution, r: InningResult)
    requires
        dist.wf(),
        dist.home_run == 0,
        possible_inning(dist, r),
    ensures
        r == (InningResult { runs: 0, plate_appearances: 3, at_bats: 3, hits: 0, total_bases: 0, walks: 0 }),
{
    let (xs, ds) = choose|xs: Seq<int>, ds: Seq<AdvanceDraws>| is_inning(dist, xs, ds, r);
    if xs.len() > 3 {
        let (xs3, ds3) = (xs.take(3), ds.take(3));
        assert forall|i: int| 0 <= i < xs3.len() implies 0 <= #[trigger] xs3[i] by {
            assert(xs3[i] == xs[i]);
        }
        lemma_all_outs(dist, xs3, ds3);
        assert(play(dist, xs.take(3), ds.take(3)).0.active());
    }
    lemma_all_outs(dist, xs, ds);
}

/// Such a hitter scores no runs, however many innings are played.
pub proof fn lemma_never_on_base_runs(dist: PlateAppearanceDistribution, innings: Seq<InningResult>)
    requires
        dist.wf(),
        dist.home_run == 0,
        forall|j: int| 0 <= j < innings.len() ==> possible_inning(dist, #[trigger] innings[j]),
    ensures
        total_runs(innings) == 0,
    decreases innings.len(),
{
    if innings.len() > 0 {
        let init = innings.drop_last();
        assert forall|j: int| 0 <= j < init.len() implies possible_inning(dist, #[trigger] init[j]) by {
            assert(init[j] == innings[j]);
        }
        lemma_never_on_base_runs(dist, init);
        lemma_never_on_base_inning(dist, innings.last());
    }
}

/// Simulates one inning of identical hitters with the outcome distribution `dist`.
pub fn simulate_inning(dist: &PlateAppearanceDistribution, rng: &mut rand::rngs::StdRng) -> (r: InningResult)
    requires
        dist.wf(),
    ensures
        possible_inning(*dist, r),
        r.wf(),
        r.runs <= r.hits + r.walks,
        r.plate_appearances <= MAX_INNING_PLATE_APPEARANCES,
        r.at_bats - r.hits <= 3,
        r.at_bats - r.hits == 3 || r.plate_appearances == MAX_INNING_PLATE_APPEARANCES,
{
    let mut state = BaseOutState::new();
    let mut tally = InningResult::new();
    let ghost mut xs: Seq<int> = Seq::empty();
    let ghost mut ds: Seq<AdvanceDraws> = Seq::empty();
    while state.outs < 3 && tally.plate_appearances < MAX_INNING_PLATE_APPEARANCES
        invariant
            dist.wf(),
            tally.wf(),
            state.outs <= 3,
            state.outs == tally.at_bats - tally.hits,
            tally.runs + state.runners() + state.outs <= tally.plate_appearances,
            tally.plate_appearances <= MAX_INNING_PLATE_APPEARANCES,
            xs.len() == tally.plate_appearances,
            ds.len() == tally.plate_appearances,
            forall|i: int| 0 <= i < xs.len() ==> 0 <= #[trigger] xs[i] < dist.denominator,
            forall|k: int| 0 <= k < xs.len() ==> (#[trigger] play(*dist, xs.take(k), ds.take(k))).0.active(),
            play(*dist, xs, ds) == (state, tally),
        decreases MAX_INNING_PLATE_APPEARANCES - tally.plate_appearances,
    {
        let result = PlateAppearanceResult::sample(dist, rng);
        let ghost x = choose|x: int| 0 <= x < dist.denominator && result == outcome_at(*dist, x);
        tally.record(result);
        let (next, runs) = state.move_runners(result, rng);
        let ghost d = choose|d: AdvanceDraws| next == state.next(result, d) && runs == state.runs(result, d);
        proof {
            lemma_conservation(state, result, d);
            let xs1 = xs.push(x);
            let ds1 = ds.push(d);
            assert(xs1.drop_last() =~= xs);
            assert(ds1.drop_last() =~= ds);
            assert forall|k: int| 0 <= k < xs1.len() implies (#[trigger] play(*dist, xs1.take(k), ds1.take(k))).0.active() by {
                if k < xs.len() {
                    assert(xs1.take(k) =~= xs.take(k));
                    assert(ds1.take(k) =~= ds.take(k));
                } else {
                    assert(xs1.take(k) =~= xs);
                    assert(ds1.take(k) =~= ds);
                }
            }
            assert forall|i: int| 0 <= i < xs1.len() implies 0 <= #[trigger] xs1[i] < dist.denominator by {
                if i < xs.len() {
                    assert(xs1[i] == xs[i]);
                }
            }
            xs = xs1;
            ds = ds1;
        }
        state = next;
        tally.runs = tally.runs + runs;
    }
    proof {
        assert(is_inning(*dist, xs, ds, tally));
    }
    tally
}

/// The runs of a run of innings, added up.
pub open spec fn total_runs(innings: Seq<InningResult>) -> int
    decreases innings.len(),
{
    if innings.len() == 0 {
        0
    } else {
        total_runs(innings.drop_last()) + innings.last().runs
    }
}

/// Simulates `num_innings` independent innings of `player` and totals the runs,
/// or reports why the profile has no outcome distribution.
pub fn simulate_batter(player: &Player, num_innings: u64, rng: &mut rand::rngs::StdRng) -> (r: Result<PlayerResult, InvalidProfile>)
    requires
        num_innings * MAX_INNING_PLATE_APPEARANCES <= u64::MAX,
    ensures
        match profile_error(*player) {
            Some(e) => r == Err::<PlayerResult, InvalidProfile>(e),
            None => r is Ok,
        },
        r is Ok ==> ({
            let s = r->Ok_0;
            &&& s.avg == player.avg
            &&& s.obp == player.obp
            &&& s.slg == player.slg
            &&& s.num_innings == num_innings
            &&& exists|innings: Seq<InningResult>| {
                &&& innings.len() == num_innings
                &&& forall|j: int| 0 <= j < innings.len()
                    ==> possible_inning(distribution_of(*player), #[trigger] innings[j])
                &&& s.runs == total_runs(innings)
            }
        }),
{
    let dist = match player.distribution() {
        Ok(d) => d,
        Err(e) => return Err(e),
    };
    let mut runs: u64 = 0;
    let mut i: u64 = 0;
    let ghost mut innings: Seq<InningResult> = Seq::empty();
    while i < num_innings
        invariant
            dist.wf(),
            dist == distribution_of(*player),
            i <= num_innings,
            num_innings * MAX_INNING_PLATE_APPEARANCES <= u64::MAX,
            runs <= i * MAX_INNING_PLATE_APPEARANCES,
            innings.len() == i,
            forall|j: int| 0 <= j < innings.len() ==> possible_inning(dist, #[trigger] innings[j]),
            runs == total_runs(innings),
        decreases num_innings - i,
    {
        let inning = simulate_inning(&dist, rng);
        proof {
            assert((i + 1) * MAX_INNING_PLATE_APPEARANCES <= num_innings * MAX_INNING_PLATE_APPEARANCES)
                by (nonlinear_arith)
                requires i < num_innings;
            let innings1 = innings.push(inning);
            assert(innings1.drop_last() =~= innings);
            assert forall|j: int| 0 <= j < innings1.len() implies possible_inning(dist, #[trigger] innings1[j]) by {
                if j < innings.len() {
                    assert(innings1[j] == innings[j]);
                }
            }
            innings = innings1;
        }
        runs = runs + inning.runs as u64;
        i = i + 1;
    }
    Ok(PlayerResult { avg: player.avg, obp: player.obp, slg: player.slg, num_innings, runs })
}

impl OutcomeCounts {
    pub open spec fn total(self) -> int {
        self.walks + self.singles + self.doubles + self.triples + self.home_runs + self.outs
    }

    /// The counts with one more of the outcome `o`.
    pub open spec fn counted(self, o: PlateAppearanceResult) -> OutcomeCounts {
        match o {
            PlateAppearanceResult::Walk => OutcomeCounts { walks: (self.walks + 1) as usize, ..self },
            PlateAppearanceResult::Single => OutcomeCounts { singles: (self.singles + 1) as usize, ..self },
            PlateAppearanceResult::Double => OutcomeCounts { doubles: (self.doubles + 1) as usize, ..self },
            PlateAppearanceResult::Triple => OutcomeCounts { triples: (self.triples + 1) as usize, ..self },
            PlateAppearanceResult::HomeRun => OutcomeCounts { home_runs: (self.home_runs + 1) as usize, ..self },
            PlateAppearanceResult::Out => OutcomeCounts { outs: (self.outs + 1) as usize, ..self },
        }
    }
}

/// How often each outcome comes up among the draws `xs`, each read off `dist`.
pub open spec fn outcome_counts(dist: PlateAppearanceDistribution, xs: Seq<int>) -> OutcomeCounts
    decreases xs.len(),
{
    if xs.len() == 0 {
        OutcomeCounts { walks: 0, singles: 0, doubles: 0, triples: 0, home_runs: 0, outs: 0 }
    } else {
        outcome_counts(dist, xs.drop_last()).counted(outcome_at(dist, xs.last()))
    }
}

/// Draws `num_runs` plate appearances from `dist` and counts each outcome.
pub fn count_outcomes(dist: &PlateAppearanceDistribution, num_runs: usize, rng: &mut rand::rngs::StdRng) -> (r: OutcomeCounts)
    requires
        dist.wf(),
    ensures
        r.total() == num_runs,
        exists|xs: Seq<int>| {
            &&& xs.len() == num_runs
            &&& forall|i: int| 0 <= i < xs.len() ==> 0 <= #[trigger] xs[i] < dist.denominator
            &&& r == outcome_counts(*dist, xs)
        },
{
    let mut counts = OutcomeCounts { walks: 0, singles: 0, doubles: 0, triples: 0, home_runs: 0, outs: 0 };
    let mut i: usize = 0;
    let ghost mut xs: Seq<int> = Seq::empty();
    while i < num_runs
        invariant
            dist.wf(),
            i <= num_runs,
            counts.total() == i,
            xs.len() == i,
            forall|j: int| 0 <= j < xs.len() ==> 0 <= #[trigger] xs[j] < dist.denominator,
            counts == outcome_counts(*dist, xs),
        decreases num_runs - i,
    {
        let result = PlateAppearanceResult::sample(dist, rng);
        let ghost x = choose|x: int| 0 <= x < dist.denominator && result == outcome_at(*dist, x);
        match result {
            PlateAppearanceResult::Walk => counts.walks += 1,
            PlateAppearanceResult::Single => counts.singles += 1,
            PlateAppearanceResult::Double => counts.doubles += 1,
            PlateAppearanceResult::Triple => counts.triples += 1,
            PlateAppearanceResult::HomeRun => counts.home_runs += 1,
            PlateAppearanceResult::Out => counts.outs += 1,
        }
        proof {
            let xs1 = xs.push(x);
            assert(xs1.drop_last() =~= xs);
            assert forall|j: int| 0 <= j < xs1.len() implies 0 <= #[trigger] xs1[j] < dist.denominator by {
                if j < xs.len() {
                    assert(xs1[j] == xs[j]);
                }
            }
            xs = xs1;
        }
        i = i + 1;
    }
    counts
}

} // verus!
