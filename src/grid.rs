//! The grid of hypothetical hitters to simulate.
use vstd::prelude::*;

use crate::profile::Player;

verus! {

/// The lowest batting average on the grid.
pub const AVG_LOW: u64 = 190;
/// The spacing of the grid in each of its three rates.
pub const GRID_STEP: u64 = 5;

/// `x` lies on the grid line that starts at `low` and ends at or before `high`.
pub open spec fn on_line(x: int, low: int, high: int) -> bool {
    low <= x <= high && (x - low) % (GRID_STEP as int) == 0
}

/// A profile of the grid: on-base and slugging percentages on their lines, and an
/// average on its line, from `AVG_LOW` up to the on-base percentage.
pub open spec fn on_grid(p: Player, obp_low: int, obp_high: int, slg_low: int, slg_high: int) -> bool {
    &&& on_line(p.obp as int, obp_low, obp_high)
    &&& on_line(p.slg as int, slg_low, slg_high)
    &&& on_line(p.avg as int, AVG_LOW as int, p.obp as int)
}

/// Ordered by on-base percentage, then slugging percentage, then average.
pub open spec fn grid_before(a: Player, b: Player) -> bool {
    a.obp < b.obp || (a.obp == b.obp && (a.slg < b.slg || (a.slg == b.slg && a.avg < b.avg)))
}

proof fn lemma_push_keeps(s: Seq<Player>, x: Player, p: Player)
    requires
        s.contains(p),
    ensures
        s.push(x).contains(p),
{
    let i = choose|i: int| 0 <= i < s.len() && s[i] == p;
    assert(s.push(x)[i] == p);
}

proof fn lemma_line_step(x: int, y: int, low: int)
    requires
        (x - low) % (GRID_STEP as int) == 0,
        (y - low) % (GRID_STEP as int) == 0,
        y <= x < y + GRID_STEP,
    ensures
        x == y,
{
    assert(x == y) by (nonlinear_arith)
        requires (x - low) % 5 == 0, (y - low) % 5 == 0, y <= x < y + 5;
}

/// Every profile of the grid, once each, in grid order.
pub fn create_players(obp_low: u64, obp_high: u64, slg_low: u64, slg_high: u64) -> (r: Vec<Player>)
    requires
        obp_high <= u64::MAX - GRID_STEP,
        slg_high <= u64::MAX - GRID_STEP,
    ensures
        forall|i: int| 0 <= i < r@.len() ==> on_grid(#[trigger] r@[i], obp_low as int, obp_high as int, slg_low as int, slg_high as int),
        forall|p: Player| on_grid(p, obp_low as int, obp_high as int, slg_low as int, slg_high as int) ==> r@.contains(p),
        forall|i: int, j: int| 0 <= i < j < r@.len() ==> grid_before(r@[i], r@[j]),
{
    let ghost (ol, oh, sl, sh) = (obp_low as int, obp_high as int, slg_low as int, slg_high as int);
    let mut players: Vec<Player> = Vec::new();
    let mut obp: u64 = obp_low;
    while obp <= obp_high
        invariant
            ol == obp_low && oh == obp_high && sl == slg_low && sh == slg_high,
            obp_high <= u64::MAX - GRID_STEP,
            slg_high <= u64::MAX - GRID_STEP,
            obp_low <= obp,
            obp <= obp_high + GRID_STEP || obp == obp_low,
            (obp - obp_low) % (GRID_STEP as int) == 0,
            forall|i: int| 0 <= i < players@.len() ==> on_grid(#[trigger] players@[i], ol, oh, sl, sh) && players@[i].obp < obp,
            forall|p: Player| on_grid(p, ol, oh, sl, sh) && p.obp < obp ==> players@.contains(p),
            forall|i: int, j: int| 0 <= i < j < players@.len() ==> grid_before(players@[i], players@[j]),
        decreases obp_high + GRID_STEP - obp,
    {
        let mut slg: u64 = slg_low;
        while slg <= slg_high
            invariant
                ol == obp_low && oh == obp_high && sl == slg_low && sh == slg_high,
                obp_high <= u64::MAX - GRID_STEP,
                slg_high <= u64::MAX - GRID_STEP,
                obp_low <= obp <= obp_high,
                (obp - obp_low) % (GRID_STEP as int) == 0,
                slg_low <= slg,
                slg <= slg_high + GRID_STEP || slg == slg_low,
                (slg - slg_low) % (GRID_STEP as int) == 0,
                forall|i: int| 0 <= i < players@.len() ==> on_grid(#[trigger] players@[i], ol, oh, sl, sh)
                    && (players@[i].obp < obp || (players@[i].obp == obp && players@[i].slg < slg)),
                forall|p: Player| on_grid(p, ol, oh, sl, sh) && (p.obp < obp || (p.obp == obp && p.slg < slg))
                    ==> players@.contains(p),
                forall|i: int, j: int| 0 <= i < j < players@.len() ==> grid_before(players@[i], players@[j]),
            decreases slg_high + GRID_STEP - slg,
        {
            let mut avg: u64 = AVG_LOW;
            while avg <= obp
                invariant
                    ol == obp_low && oh == obp_high && sl == slg_low && sh == slg_high,
                    obp_high <= u64::MAX - GRID_STEP,
                    obp_low <= obp <= obp_high,
                    (obp - obp_low) % (GRID_STEP as int) == 0,
                    slg_low <= slg <= slg_high,
                    (slg - slg_low) % (GRID_STEP as int) == 0,
                    AVG_LOW <= avg,
                    avg <= obp + GRID_STEP || avg == AVG_LOW,
                    (avg - AVG_LOW) % (GRID_STEP as int) == 0,
                    forall|i: int| 0 <= i < players@.len() ==> on_grid(#[trigger] players@[i], ol, oh, sl, sh)
                        && grid_before(players@[i], Player { avg, obp, slg }),
                    forall|p: Player| on_grid(p, ol, oh, sl, sh)
                        && (p.obp < obp || (p.obp == obp && (p.slg < slg || (p.slg == slg && p.avg < avg))))
                        ==> players@.contains(p),
                    forall|i: int, j: int| 0 <= i < j < players@.len() ==> grid_before(players@[i], players@[j]),
                decreases obp + GRID_STEP - avg,
            {
                let x = Player { avg, obp, slg };
                let ghost old_players = players@;
                players.push(x);
                proof {
                    assert(players@[old_players.len() as int] == x);
                    assert forall|i: int| 0 <= i < players@.len() implies on_grid(#[trigger] players@[i], ol, oh, sl, sh)
                        && grid_before(players@[i], Player { avg: (avg + GRID_STEP) as u64, obp, slg }) by {
                        if i < old_players.len() {
                            assert(players@[i] == old_players[i]);
                        }
                    }
                    assert forall|p: Player| on_grid(p, ol, oh, sl, sh)
                        && (p.obp < obp || (p.obp == obp && (p.slg < slg || (p.slg == slg && p.avg < avg + GRID_STEP))))
                        implies players@.contains(p) by {
                        if p.obp == obp && p.slg == slg && p.avg >= avg {
                            lemma_line_step(p.avg as int, avg as int, AVG_LOW as int);
                            assert(p == x);
                            assert(players@[old_players.len() as int] == p);
                        } else {
                            lemma_push_keeps(old_players, x, p);
                        }
                    }
                }
                avg = avg + GRID_STEP;
            }
            proof {
                assert forall|p: Player| on_grid(p, ol, oh, sl, sh)
                    && (p.obp < obp || (p.obp == obp && p.slg < slg + GRID_STEP))
                    implies players@.contains(p) by {
                    if p.obp == obp && p.slg >= slg {
                        lemma_line_step(p.slg as int, slg as int, sl);
                    }
                }
            }
            slg = slg + GRID_STEP;
        }
        proof {
            assert forall|p: Player| on_grid(p, ol, oh, sl, sh) && p.obp < obp + GRID_STEP
                implies players@.contains(p) by {
                if p.obp >= obp {
                    lemma_line_step(p.obp as int, obp as int, ol);
                }
            }
        }
        obp = obp + GRID_STEP;
    }
    players
}

} // verus!
