use rand::rngs::StdRng;
use rand::SeedableRng;
use runs_sim::inning::{simulate_batter, simulate_inning, InningResult, PlayerResult};
use runs_sim::outcome::PlateAppearanceResult;
use runs_sim::profile::{InvalidProfile, Player};

#[test]
fn record_counts_each_outcome() {
    let mut t = InningResult::new();
    for r in [
        PlateAppearanceResult::Walk,
        PlateAppearanceResult::Single,
        PlateAppearanceResult::Double,
        PlateAppearanceResult::Triple,
        PlateAppearanceResult::HomeRun,
        PlateAppearanceResult::Out,
    ] {
        t.record(r);
    }
    assert_eq!(
        t,
        InningResult { runs: 0, plate_appearances: 6, at_bats: 5, hits: 4, total_bases: 10, walks: 1 }
    );
}

#[test]
fn innings_keep_counters_consistent() {
    let d = Player { avg: 280, obp: 350, slg: 450 }.distribution().unwrap();
    let mut rng = StdRng::seed_from_u64(3);
    for _ in 0..2000 {
        let t = simulate_inning(&d, &mut rng);
        assert!(t.hits <= t.at_bats && t.at_bats <= t.plate_appearances);
        assert!(t.total_bases >= t.hits && t.total_bases <= 4 * t.hits);
        assert_eq!(t.at_bats + t.walks, t.plate_appearances);
        assert_eq!(t.at_bats - t.hits, 3);
        assert!(t.runs <= t.plate_appearances - 3);
    }
}

#[test]
fn large_sample_matches_profile() {
    let player = Player { avg: 315, obp: 365, slg: 510 };
    let d = player.distribution().unwrap();
    let mut rng = StdRng::seed_from_u64(2024);
    let mut total = InningResult::new();
    for _ in 0..100_000 {
        let t = simulate_inning(&d, &mut rng);
        total.plate_appearances += t.plate_appearances;
        total.at_bats += t.at_bats;
        total.hits += t.hits;
        total.total_bases += t.total_bases;
        total.walks += t.walks;
    }
    let avg = total.hits as f64 / total.at_bats as f64;
    let obp = (total.hits + total.walks) as f64 / total.plate_appearances as f64;
    let slg = total.total_bases as f64 / total.at_bats as f64;
    assert!((avg - 0.315).abs() < 0.005, "avg {avg}");
    assert!((obp - 0.365).abs() < 0.005, "obp {obp}");
    assert!((slg - 0.510).abs() < 0.005, "slg {slg}");
}

#[test]
fn batter_summary_keeps_profile() {
    let player = Player { avg: 260, obp: 330, slg: 420 };
    let mut rng = StdRng::seed_from_u64(5);
    let r = simulate_batter(&player, 5000, &mut rng).unwrap();
    assert_eq!((r.avg, r.obp, r.slg, r.num_innings), (260, 330, 420, 5000));
    // About half a run an inning for such a hitter.
    assert!(r.runs > 1500 && r.runs < 4000, "runs {}", r.runs);
}

#[test]
fn batter_with_no_innings() {
    let mut rng = StdRng::seed_from_u64(5);
    let r = simulate_batter(&Player { avg: 260, obp: 330, slg: 420 }, 0, &mut rng).unwrap();
    assert_eq!(r.runs, 0);
}

#[test]
fn batter_with_invalid_profile() {
    let mut rng = StdRng::seed_from_u64(5);
    let r = simulate_batter(&Player { avg: 400, obp: 300, slg: 500 }, 10, &mut rng);
    assert_eq!(r, Err(InvalidProfile::AvgAboveObp));
}

#[test]
fn hitter_who_never_reaches_scores_nothing() {
    let mut rng = StdRng::seed_from_u64(9);
    let player = Player { avg: 0, obp: 0, slg: 0 };
    let r = simulate_batter(&player, 1000, &mut rng).unwrap();
    assert_eq!(r, PlayerResult { avg: 0, obp: 0, slg: 0, num_innings: 1000, runs: 0 });
}

#[test]
fn inning_of_a_hitter_who_never_reaches() {
    let mut rng = StdRng::seed_from_u64(10);
    let d = Player { avg: 0, obp: 0, slg: 0 }.distribution().unwrap();
    let t = simulate_inning(&d, &mut rng);
    assert_eq!(
        t,
        InningResult { runs: 0, plate_appearances: 3, at_bats: 3, hits: 0, total_bases: 0, walks: 0 }
    );
}

#[test]
fn innings_score_at_most_the_batters_who_reached() {
    let d = Player { avg: 330, obp: 450, slg: 600 }.distribution().unwrap();
    let mut rng = StdRng::seed_from_u64(12);
    for _ in 0..2000 {
        let t = simulate_inning(&d, &mut rng);
        assert!(t.runs <= t.hits + t.walks);
    }
}
