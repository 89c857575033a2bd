use taipan::combat::{Battle, BattleResult, Decision, RoundReport, ENEMY_DAMAGE};
use taipan::game::Game;
use taipan::market::{Good, Market};
use taipan::rng::Rng;

fn game_with(guns: u32, health: u32) -> (Game, Rng) {
    let mut rng = Rng::new(1);
    let mut g = Game::new(&mut rng);
    g.guns = guns;
    g.health = health;
    (g, rng)
}

#[test]
fn battle_tracks_enemy_count() {
    let b = Battle::new(3);
    assert_eq!(b.enemies_remaining(), 3);
    assert_eq!(b.sunk(), 0);
}

#[test]
fn roll_encounter_is_bounded() {
    let mut rng = Rng::new(55);
    for _ in 0..1000 {
        let b = Battle::roll_encounter(&mut rng, 5);
        assert!((1..=8).contains(&b.enemies_remaining()));
    }
}

#[test]
fn overwhelming_guns_win_in_one_round() {
    let (mut g, mut rng) = game_with(100, 100);
    let mut b = Battle::new(1);
    let (report, result) = b.step(Decision::Fight, &mut g, &mut rng);
    assert_eq!(result, Some(BattleResult::Victory { sunk: 1 }));
    assert!(matches!(report, RoundReport::Fought { sunk_now: 1, .. }));
    assert_eq!(g.health, 100);
}

#[test]
fn fighting_takes_damage_from_survivors() {
    let (mut g, mut rng) = game_with(0, 100);
    let mut b = Battle::new(2);
    let (report, result) = b.step(Decision::Fight, &mut g, &mut rng);
    assert_eq!(result, None);
    match report {
        RoundReport::Fought { hits, sunk_now, damage_taken } => {
            assert_eq!(hits, 0);
            assert_eq!(sunk_now, 0);
            assert_eq!(damage_taken, 2 * ENEMY_DAMAGE);
        }
        other => panic!("unexpected {other:?}"),
    }
    assert_eq!(g.health, 100 - 2 * ENEMY_DAMAGE);
}

#[test]
fn fighting_can_sink_the_player() {
    let (mut g, mut rng) = game_with(0, 3);
    let mut b = Battle::new(2);
    let (_report, result) = b.step(Decision::Fight, &mut g, &mut rng);
    assert_eq!(result, Some(BattleResult::Sunk));
    assert_eq!(g.health, 0);
}

#[test]
fn throwing_no_cargo_never_works() {
    let (mut g, mut rng) = game_with(5, 100);
    let mut b = Battle::new(3);
    let (report, result) = b.step(Decision::Throw { good: Good::Silk, qty: 10 }, &mut g, &mut rng);
    assert_eq!(result, None);
    assert_eq!(report, RoundReport::Threw { accepted: false, jettisoned: 0 });
}

#[test]
fn throwing_cargo_removes_it_from_hold() {
    let mut rng = Rng::new(1);
    let mut g = Game::new(&mut rng);
    g.market = Market::with_prices([1, 1, 1, 1]);
    g.cash = 1_000;
    g.buy(Good::Silk, 10).unwrap();
    let mut b = Battle::new(3);
    let (report, _result) = b.step(Decision::Throw { good: Good::Silk, qty: 4 }, &mut g, &mut rng);
    assert!(matches!(report, RoundReport::Threw { jettisoned: 4, .. }));
    assert_eq!(g.hold.quantity(Good::Silk), 6);
}

#[test]
fn a_full_scripted_battle_is_deterministic() {
    fn play() -> (BattleResult, u32) {
        let mut rng = Rng::new(777);
        let mut g = Game::new(&mut rng);
        g.guns = 6;
        g.health = 100;
        let mut b = Battle::roll_encounter(&mut rng, g.guns);
        loop {
            let (_r, result) = b.step(Decision::Fight, &mut g, &mut rng);
            if let Some(res) = result {
                return (res, g.health);
            }
        }
    }
    let first = play();
    let second = play();
    assert_eq!(first, second);
}

// ---- further cases ----

#[test]
fn a_battle_restores_from_its_parts() {
    let b = Battle::from_parts(vec![2, 1], 3);
    assert_eq!(b.enemies_remaining(), 2);
    assert_eq!(b.sunk(), 3);
    assert_eq!(b.enemy_hps(), &[2, 1]);
}

#[test]
fn running_keeps_the_battle_unchanged() {
    let (mut g, mut rng) = game_with(5, 100);
    let mut b = Battle::new(4);
    let (report, result) = b.step(Decision::Run, &mut g, &mut rng);
    assert_eq!(b.enemies_remaining(), 4);
    match report {
        RoundReport::Ran { escaped: true, damage_taken } => {
            assert_eq!(damage_taken, 0);
            assert_eq!(result, Some(BattleResult::Escaped));
            assert_eq!(g.health, 100);
        }
        RoundReport::Ran { escaped: false, damage_taken } => {
            assert_eq!(damage_taken, 4 * ENEMY_DAMAGE);
            assert_eq!(g.health, 100 - 4 * ENEMY_DAMAGE);
        }
        other => panic!("unexpected {other:?}"),
    }
}

#[test]
fn a_lone_ship_is_outrun_from_state_one_and_caught_from_state_three() {
    let (mut g, _) = game_with(5, 100);
    let mut b = Battle::new(1);
    let mut rng = Rng::from_state(1);
    let (report, result) = b.step(Decision::Run, &mut g, &mut rng);
    assert_eq!(report, RoundReport::Ran { escaped: true, damage_taken: 0 });
    assert_eq!(result, Some(BattleResult::Escaped));
    assert_eq!(g.health, 100);

    let mut rng = Rng::from_state(3);
    let (report, result) = b.step(Decision::Run, &mut g, &mut rng);
    assert_eq!(report, RoundReport::Ran { escaped: false, damage_taken: 3 });
    assert_eq!(result, None);
    assert_eq!(g.health, 97);
}

#[test]
fn a_lone_ship_is_outrun_about_three_times_in_four() {
    let mut escapes = 0;
    for state in 1..=4000u64 {
        let (mut g, _) = game_with(5, 100);
        let mut b = Battle::new(1);
        let mut rng = Rng::from_state(state);
        if let (RoundReport::Ran { escaped: true, .. }, _) = b.step(Decision::Run, &mut g, &mut rng) {
            escapes += 1;
        }
    }
    assert!(escapes > 2800 && escapes < 3200, "escaped {escapes} times in 4000");
}

#[test]
fn a_fight_round_keeps_its_books() {
    for state in 1..=200u64 {
        let (mut g, _) = game_with(6, 100);
        let mut b = Battle::from_parts(vec![2, 2, 2], 1);
        let mut rng = Rng::from_state(state);
        let before: u32 = b.enemy_hps().iter().sum();
        let (report, result) = b.step(Decision::Fight, &mut g, &mut rng);
        match report {
            RoundReport::Fought { hits, sunk_now, damage_taken } => {
                assert!(hits <= 6);
                assert_eq!(b.sunk(), 1 + sunk_now);
                assert_eq!(b.enemies_remaining(), 3 - sunk_now);
                assert!(b.enemy_hps().iter().all(|&h| h > 0));
                let after: u32 = b.enemy_hps().iter().sum();
                assert_eq!(after, before - hits.min(before));
                if b.enemies_remaining() == 0 {
                    assert_eq!(damage_taken, 0);
                    assert_eq!(result, Some(BattleResult::Victory { sunk: b.sunk() }));
                    assert_eq!(g.health, 100);
                } else {
                    assert_eq!(damage_taken, 3 * b.enemies_remaining());
                    assert_eq!(g.health, 100 - damage_taken);
                    assert_eq!(result, None);
                }
            }
            other => panic!("unexpected {other:?}"),
        }
    }
}
