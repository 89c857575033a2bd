use taipan::game::{Game, Outcome, ShipyardError, MAX_HEALTH, WIN_TARGET, GUN_PRICE, GUN_SPACE};
use taipan::market::{Good, Market};
use taipan::rng::Rng;
use taipan::travel::Port;
use taipan::economy::EconomyMode;

fn new_game() -> (Game, Rng) {
    let mut rng = Rng::new(1);
    let game = Game::new(&mut rng);
    (game, rng)
}

#[test]
fn starts_with_classic_values() {
    let (g, _) = new_game();
    assert_eq!(g.cash, 400);
    assert_eq!(g.debt, 5_000);
    assert_eq!(g.guns, 5);
    assert_eq!(g.health, 100);
    assert_eq!(g.hold.capacity(), 60);
    assert_eq!(g.location, Port::HongKong);
    assert!(g.outcome.is_none());
}

#[test]
fn net_worth_subtracts_debt_and_counts_cargo() {
    let mut rng = Rng::new(1);
    let mut g = Game::new(&mut rng);
    g.cash = 10_000;
    g.bank = 5_000;
    g.debt = 3_000;
    assert_eq!(g.net_worth(), 12_000);
}

#[test]
fn net_worth_saturates_when_debt_exceeds_assets() {
    let mut rng = Rng::new(1);
    let mut g = Game::new(&mut rng);
    g.cash = 100;
    g.bank = 0;
    g.debt = 5_000;
    assert_eq!(g.net_worth(), 0);
}

#[test]
fn deposit_and_withdraw_cap_correctly() {
    let (mut g, _) = new_game();
    g.cash = 1_000;
    assert_eq!(g.deposit(1_500), 1_000);
    assert_eq!(g.cash, 0);
    assert_eq!(g.bank, 1_000);
    assert_eq!(g.withdraw(400), 400);
    assert_eq!(g.cash, 400);
    assert_eq!(g.bank, 600);
    assert_eq!(g.withdraw(9_999), 600);
}

#[test]
fn pay_debt_caps_at_min_of_cash_and_debt() {
    let (mut g, _) = new_game();
    g.cash = 10_000;
    g.debt = 5_000;
    assert_eq!(g.pay_debt(8_000), 5_000);
    assert_eq!(g.debt, 0);
    assert_eq!(g.cash, 5_000);

    g.debt = 9_000;
    assert_eq!(g.pay_debt(7_000), 5_000);
    assert_eq!(g.cash, 0);
    assert_eq!(g.debt, 4_000);
}

#[test]
fn borrow_raises_cash_and_debt_together() {
    let (mut g, _) = new_game();
    let cash0 = g.cash;
    let debt0 = g.debt;
    g.borrow(1_000);
    assert_eq!(g.cash, cash0 + 1_000);
    assert_eq!(g.debt, debt0 + 1_000);
}

#[test]
fn interest_compounds_debt_and_bank() {
    let (mut g, _) = new_game();
    g.debt = 5_000;
    g.bank = 10_000;
    g.accrue_interest();
    assert_eq!(g.debt, 5_500);
    assert_eq!(g.bank, 10_100);
}

#[test]
fn travel_accrues_interest_and_changes_port() {
    let (mut g, mut rng) = new_game();
    g.debt = 5_000;
    let arrived = g.travel_to(Port::Shanghai, &mut rng);
    assert_eq!(arrived, Port::Shanghai);
    assert_eq!(g.location, Port::Shanghai);
    assert_eq!(g.debt, 5_500);
}

#[test]
fn damage_can_destroy_ship() {
    let (mut g, _) = new_game();
    g.damage(40);
    assert_eq!(g.health, 60);
    assert!(g.outcome.is_none());
    g.damage(100);
    assert_eq!(g.health, 0);
    assert_eq!(g.outcome, Some(Outcome::ShipDestroyed));
}

#[test]
fn repair_caps_at_max() {
    let (mut g, _) = new_game();
    g.damage(50);
    g.repair(999);
    assert_eq!(g.health, MAX_HEALTH);
}

#[test]
fn can_retire_at_target() {
    let mut rng = Rng::new(1);
    let mut g = Game::new(&mut rng);
    g.debt = 0;
    g.bank = WIN_TARGET;
    assert!(g.can_retire());
    g.retire();
    assert_eq!(g.outcome, Some(Outcome::Won));
    assert!(g.is_over());
}

#[test]
fn store_moves_cargo_to_warehouse() {
    let mut rng = Rng::new(1);
    let mut g = Game::new(&mut rng);
    g.market = Market::with_prices([1, 1, 1, 1]);
    g.cash = 1_000;
    g.buy(Good::Silk, 10).unwrap();
    assert_eq!(g.store(Good::Silk, 7), 7);
    assert_eq!(g.hold.quantity(Good::Silk), 3);
    assert_eq!(g.warehouse[Good::Silk.index()], 7);
}

// ---- further cases ----

#[test]
fn net_worth_counts_cargo_at_market_prices() {
    let (mut g, _) = new_game();
    g.market = Market::with_prices([10, 20, 30, 40]);
    g.cash = 10_000;
    g.debt = 0;
    g.buy(Good::Silk, 5).unwrap();
    // 10000 - 100 spent + 5 * 20 of silk on board.
    assert_eq!(g.net_worth(), 10_000);
}

#[test]
fn interest_saturates_instead_of_overflowing() {
    let (mut g, _) = new_game();
    g.debt = u64::MAX - 1;
    g.accrue_interest();
    assert_eq!(g.debt, u64::MAX);
}

#[test]
fn guns_cost_cash_and_hold_space() {
    let (mut g, _) = new_game();
    g.cash = 5_000;
    let cap0 = g.hold.capacity();
    assert_eq!(g.buy_guns(2), Ok(2 * GUN_PRICE));
    assert_eq!(g.guns, 7);
    assert_eq!(g.cash, 5_000 - 2 * GUN_PRICE);
    assert_eq!(g.hold.capacity(), cap0 - 2 * GUN_SPACE);
}

#[test]
fn guns_refused_when_cash_is_short() {
    let (mut g, _) = new_game();
    g.cash = GUN_PRICE + 1;
    assert_eq!(g.buy_guns(3), Err(ShipyardError::NotEnoughCash { affordable: 1 }));
    assert_eq!(g.guns, 5);
}

#[test]
fn repair_hull_spends_only_what_it_restores() {
    let (mut g, _) = new_game();
    g.damage(10);
    g.cash = 10_000;
    let (points, cost) = g.repair_hull(10_000);
    assert_eq!(points, 10);
    assert_eq!(g.health, MAX_HEALTH);
    assert_eq!(g.cash, 10_000 - cost);
}

#[test]
fn trader_mode_is_recorded_on_the_game() {
    let mut rng = Rng::new(3);
    let g = Game::new_with_mode(EconomyMode::Trader, &mut rng);
    assert_eq!(g.mode, EconomyMode::Trader);
}

#[test]
fn banking_keeps_net_worth() {
    let (mut g, _) = new_game();
    g.cash = 5_000;
    g.bank = 2_000;
    g.debt = 3_000;
    let w = g.net_worth();
    g.deposit(1_234);
    assert_eq!(g.net_worth(), w);
    g.withdraw(999);
    assert_eq!(g.net_worth(), w);
    g.pay_debt(500);
    assert_eq!(g.net_worth(), w);
    g.borrow(700);
    assert_eq!(g.net_worth(), w);
}

#[test]
fn selling_what_was_bought_gives_the_cash_back() {
    let (mut g, _) = new_game();
    g.market = Market::with_prices([7, 9, 11, 13]);
    g.cash = 1_000;
    let before = g.hold.units();
    let cost = g.buy(Good::Arms, 20).unwrap();
    assert_eq!(cost, 220);
    assert_eq!(g.sell(Good::Arms, 20), Ok(220));
    assert_eq!(g.cash, 1_000);
    assert_eq!(g.hold.units(), before);
}

#[test]
fn storing_keeps_the_goods() {
    let (mut g, _) = new_game();
    g.market = Market::with_prices([1, 1, 1, 1]);
    g.cash = 1_000;
    g.buy(Good::Opium, 9).unwrap();
    g.store(Good::Opium, 4);
    assert_eq!(g.hold.quantity(Good::Opium) + g.warehouse[Good::Opium.index()], 9);
}

#[test]
fn borrowing_near_the_cash_ceiling_lends_only_what_fits() {
    let (mut g, _) = new_game();
    g.cash = u32::MAX - 300;
    let debt0 = g.debt;
    g.borrow(1_000);
    assert_eq!(g.cash, u32::MAX);
    assert_eq!(g.debt, debt0 + 300);

    g.borrow(1);
    assert_eq!(g.cash, u32::MAX);
    assert_eq!(g.debt, debt0 + 300);
}
