use runs_sim::profile::{InvalidProfile, PlateAppearanceDistribution, Player};

#[test]
fn distribution_exact_thresholds() {
    let player = Player { avg: 315, obp: 365, slg: 510 };
    let d = player.distribution().unwrap();
    assert_eq!(
        d,
        PlateAppearanceDistribution {
            walk: 9_150_000,
            single: 33_372_075,
            double: 40_306_275,
            triple: 40_925_400,
            home_run: 45_754_575,
            denominator: 125_355_000,
        }
    );
}

#[test]
fn distribution_sums_to_obp() {
    for &(avg, obp, slg) in &[(190u64, 260u64, 260u64), (250, 330, 400), (300, 500, 650), (1, 999, 2)] {
        let d = Player { avg, obp, slg }.distribution().unwrap();
        assert!(d.walk <= d.single && d.single <= d.double && d.double <= d.triple);
        assert!(d.triple <= d.home_run && d.home_run < d.denominator);
        assert_eq!(d.home_run as u128 * 1000, obp as u128 * d.denominator as u128);
    }
}

#[test]
fn no_power_means_no_extra_base_hits() {
    let d = Player { avg: 250, obp: 250, slg: 250 }.distribution().unwrap();
    assert_eq!(d.walk, 0);
    assert_eq!(d.single, d.home_run);
    assert_eq!(d.home_run * 4, d.denominator);
}

#[test]
fn invalid_profiles() {
    assert_eq!(Player { avg: 300, obp: 290, slg: 400 }.distribution(), Err(InvalidProfile::AvgAboveObp));
    assert_eq!(Player { avg: 300, obp: 1000, slg: 400 }.distribution(), Err(InvalidProfile::ObpNotBelowOne));
    assert_eq!(Player { avg: 300, obp: 350, slg: 290 }.distribution(), Err(InvalidProfile::SlgBelowAvg));
    assert_eq!(Player { avg: 190, obp: 300, slg: 650 }.distribution(), Err(InvalidProfile::NegativeSingles));
    assert_eq!(Player { avg: 0, obp: 100, slg: 1 }.distribution(), Err(InvalidProfile::NegativeSingles));
    assert_eq!(Player { avg: 5, obp: 10, slg: u64::MAX }.distribution(), Err(InvalidProfile::NegativeSingles));
}

#[test]
fn singles_at_the_edge_of_validity() {
    // 100 * (slg - avg) == 183 * avg: no singles at all.
    let d = Player { avg: 100, obp: 200, slg: 283 }.distribution().unwrap();
    assert_eq!(d.single, d.walk);
    assert!(Player { avg: 100, obp: 200, slg: 284 }.distribution().is_err());
}
