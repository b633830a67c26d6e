use rand::rngs::StdRng;
use rand::SeedableRng;
use runs_sim::bases::{AdvanceDraws, BaseOutState};
use runs_sim::outcome::PlateAppearanceResult;

const NO_EXTRA: AdvanceDraws = AdvanceDraws {
    first_to_third: false,
    second_to_home: false,
    first_to_home: false,
    extra_base_on_throw: false,
};

fn state(on_1st: bool, on_2nd: bool, on_3rd: bool, outs: u8) -> BaseOutState {
    BaseOutState { on_1st, on_2nd, on_3rd, outs }
}

#[test]
fn result_base_out_state_sequence() {
    let sequence = [
        PlateAppearanceResult::Single,
        PlateAppearanceResult::Walk,
        PlateAppearanceResult::Double,
        PlateAppearanceResult::Walk,
        PlateAppearanceResult::HomeRun,
    ];
    let expected = [
        (state(true, false, false, 0), 0),
        (state(true, true, false, 0), 0),
        (state(false, true, true, 0), 1),
        (state(true, true, true, 0), 0),
        (state(false, false, false, 0), 4),
    ];
    let mut s = BaseOutState::new();
    let mut total = 0;
    for (result, want) in sequence.iter().zip(expected.iter()) {
        let (next, runs) = s.transition(*result, NO_EXTRA);
        assert_eq!((next, runs), *want);
        total += runs;
        s = next;
    }
    assert_eq!(total, 5);
}

#[test]
fn walk_with_bases_empty() {
    let (next, runs) = BaseOutState::new().transition(PlateAppearanceResult::Walk, NO_EXTRA);
    assert_eq!(next, state(true, false, false, 0));
    assert_eq!(runs, 0);
}

#[test]
fn walk_with_bases_loaded() {
    let loaded = state(true, true, true, 2);
    let (next, runs) = loaded.transition(PlateAppearanceResult::Walk, NO_EXTRA);
    assert_eq!(next, loaded);
    assert_eq!(runs, 1);
}

#[test]
fn walk_moves_only_forced_runners() {
    let (next, runs) = state(false, true, false, 1).transition(PlateAppearanceResult::Walk, NO_EXTRA);
    assert_eq!(next, state(true, true, false, 1));
    assert_eq!(runs, 0);
    let (next, runs) = state(true, false, true, 1).transition(PlateAppearanceResult::Walk, NO_EXTRA);
    assert_eq!(next, state(true, true, true, 1));
    assert_eq!(runs, 0);
}

#[test]
fn home_run_clears_every_state() {
    for bits in 0..8u8 {
        let pre = state(bits & 1 != 0, bits & 2 != 0, bits & 4 != 0, 1);
        let (next, runs) = pre.transition(PlateAppearanceResult::HomeRun, NO_EXTRA);
        assert_eq!(next, state(false, false, false, 1));
        assert_eq!(runs, 1 + bits.count_ones() as usize);
    }
}

#[test]
fn triple_scores_every_runner() {
    let (next, runs) = state(true, false, true, 0).transition(PlateAppearanceResult::Triple, NO_EXTRA);
    assert_eq!(next, state(false, false, true, 0));
    assert_eq!(runs, 2);
}

#[test]
fn three_outs_end_the_inning() {
    let mut s = BaseOutState::new();
    for expected_outs in 1..=3u8 {
        let (next, runs) = s.transition(PlateAppearanceResult::Out, NO_EXTRA);
        assert_eq!(next, state(false, false, false, expected_outs));
        assert_eq!(runs, 0);
        s = next;
    }
    assert_eq!(s.outs, 3);
}

#[test]
fn single_with_extra_base_on_throw() {
    let draws = AdvanceDraws { extra_base_on_throw: true, second_to_home: true, ..NO_EXTRA };
    let (next, runs) = state(false, true, true, 0).transition(PlateAppearanceResult::Single, draws);
    assert_eq!(next, state(false, true, false, 0));
    assert_eq!(runs, 2);
    // With runners on first and second and the runner from second held, both
    // runners end up on third: one of them is no longer tracked.
    let draws = AdvanceDraws { extra_base_on_throw: true, ..NO_EXTRA };
    let (next, runs) = state(true, true, false, 0).transition(PlateAppearanceResult::Single, draws);
    assert_eq!(next, state(false, true, true, 0));
    assert_eq!(runs, 0);
}

#[test]
fn single_without_runner_on_second_ignores_throw() {
    let draws = AdvanceDraws { extra_base_on_throw: true, first_to_third: true, ..NO_EXTRA };
    let (next, runs) = state(true, false, false, 0).transition(PlateAppearanceResult::Single, draws);
    assert_eq!(next, state(true, false, true, 0));
    assert_eq!(runs, 0);
}

#[test]
fn double_scores_runner_from_first_when_drawn() {
    let draws = AdvanceDraws { first_to_home: true, ..NO_EXTRA };
    let (next, runs) = state(true, true, true, 2).transition(PlateAppearanceResult::Double, draws);
    assert_eq!(next, state(false, true, false, 2));
    assert_eq!(runs, 3);
}

#[test]
fn move_runners_draws_both_ways() {
    let mut rng = StdRng::seed_from_u64(7);
    let mut scored = 0;
    let mut held = 0;
    for _ in 0..400 {
        let (next, runs) = state(false, true, false, 0).move_runners(PlateAppearanceResult::Single, &mut rng);
        assert!(next.on_2nd || next.on_1st);
        if runs == 1 {
            scored += 1;
        } else {
            assert_eq!(runs, 0);
            held += 1;
        }
    }
    assert!(scored > 150 && held > 100);
}
