use taipan::action::{apply, apply_tokens};
use taipan::economy::EconomyMode;
use taipan::game::WIN_TARGET;
use taipan::market::{Good, Market};
use taipan::state::{new_save, to_json, Pending, Save};
use taipan::travel::Port;

fn fresh() -> Save {
    new_save(EconomyMode::Classic, 1)
}

#[test]
fn buy_then_sell_updates_cash_and_hold() {
    let mut save = fresh();
    save.game.market = Market::with_prices([10, 10, 10, 10]);
    save.game.cash = 1000;

    let save = apply(&save, "buy general 10").unwrap();
    assert_eq!(save.game.hold.units()[Good::General.index()], 10);
    assert_eq!(save.game.cash, 900);
    assert!(save.last_event.contains("Bought 10"));

    let save = apply(&save, "sell general 4").unwrap();
    assert_eq!(save.game.hold.units()[Good::General.index()], 6);
    assert_eq!(save.game.cash, 940);
}

#[test]
fn invalid_good_is_an_error() {
    let save = fresh();
    let err = apply(&save, "buy gold 5").unwrap_err();
    assert!(err.contains("good"));
}

#[test]
fn combat_action_rejected_when_not_in_combat() {
    let save = fresh();
    let err = apply(&save, "fight").unwrap_err();
    assert!(err.contains("unknown command"));
}

#[test]
fn command_action_rejected_when_in_combat() {
    let mut save = fresh();
    save.pending = Pending::Combat { enemies: vec![2, 2], sunk: 0 };
    let err = apply(&save, "buy general 1").unwrap_err();
    assert!(err.contains("in combat"));
}

#[test]
fn retire_blocked_below_target_allowed_above() {
    let mut save = fresh();
    let err = apply(&save, "retire").unwrap_err();
    assert!(err.contains("below"));

    save.game.debt = 0;
    save.game.bank = WIN_TARGET;
    let won = apply(&save, "retire").unwrap();
    assert!(won.game.is_over());
}

#[test]
fn travel_to_same_port_errors() {
    let save = fresh();
    let err = apply(&save, "travel hongkong").unwrap_err();
    assert!(err.contains("already there"));
}

#[test]
fn buy_guns_arms_the_ship_through_apply() {
    let mut save = fresh();
    save.game.cash = 5_000;
    let before = save.game.guns;
    let after = apply(&save, "buy guns 2").unwrap();
    assert_eq!(after.game.guns, before + 2);
    assert!(after.last_event.contains("Bought 2 guns"));
}

#[test]
fn buy_hold_expands_capacity_at_hong_kong_only() {
    let mut save = fresh();
    save.game.cash = 5_000;
    let cap0 = save.game.hold.capacity();
    let after = apply(&save, "buy hold 4").unwrap();
    assert_eq!(after.game.hold.capacity(), cap0 + 4);
    assert!(after.last_event.contains("Expanded hold"));

    let mut away = fresh();
    away.game.location = Port::Shanghai;
    away.game.cash = 5_000;
    assert!(apply(&away, "buy hold 4").unwrap_err().contains("Hong Kong"));
}

#[test]
fn repair_only_at_hong_kong() {
    let mut save = fresh();
    save.game.location = Port::Shanghai;
    save.game.health = 50;
    save.game.cash = 5_000;
    assert!(apply(&save, "repair 1000").unwrap_err().contains("Hong Kong"));

    save.game.location = Port::HongKong;
    let after = apply(&save, "repair 1000").unwrap();
    assert!(after.game.health > 50);
    assert!(after.last_event.contains("Repaired"));
}

#[test]
fn travel_advances_and_is_deterministic() {
    let save = fresh();
    let a = to_json(&apply(&save, "travel shanghai").unwrap());
    let b = to_json(&apply(&save, "travel shanghai").unwrap());
    assert_eq!(a, b);
}

#[test]
fn a_pirate_travel_enters_combat_then_resolves() {
    for seed in 1u64..=300 {
        let mut save = new_save(EconomyMode::Classic, seed);
        save.game.guns = 20;
        save.game.health = 100;
        let after = apply(&save, "travel shanghai").unwrap();
        if let Pending::Combat { .. } = after.pending {
            let mut cur = after;
            for _ in 0..50 {
                if let Pending::Command = cur.pending {
                    break;
                }
                cur = apply(&cur, "fight").unwrap();
            }
            assert_eq!(cur.pending, Pending::Command);
            assert!(
                cur.last_event.contains("Victory")
                    || cur.last_event.contains("sunk")
                    || cur.last_event.contains("Escaped"),
                "unexpected resolution: {}",
                cur.last_event
            );
            return;
        }
    }
    panic!("no pirate encounter found in seeds 1..=300");
}

// ---- further cases ----

#[test]
fn actions_on_a_finished_game_are_refused() {
    let mut save = fresh();
    save.game.debt = 0;
    save.game.bank = WIN_TARGET;
    let won = apply(&save, "retire").unwrap();
    let err = apply(&won, "buy general 1").unwrap_err();
    assert!(!err.is_empty());
}

#[test]
fn empty_action_is_an_error() {
    let save = fresh();
    assert_eq!(apply(&save, "   ").unwrap_err(), "empty action");
}

#[test]
fn deposit_and_withdraw_through_apply_at_home() {
    let mut save = fresh();
    save.game.cash = 1_000;
    let after = apply(&save, "deposit 300").unwrap();
    assert_eq!(after.game.cash, 700);
    assert_eq!(after.game.bank, 300);
    let after = apply(&after, "withdraw 100").unwrap();
    assert_eq!(after.game.cash, 800);
    assert_eq!(after.game.bank, 200);
}

#[test]
fn buying_more_than_cash_allows_reports_the_affordable_count() {
    let mut save = fresh();
    save.game.market = Market::with_prices([10, 10, 10, 10]);
    save.game.cash = 25;
    let err = apply(&save, "buy general 5").unwrap_err();
    assert!(err.contains("affordable: 2"));
}

fn words(ws: &[&str]) -> Vec<Vec<char>> {
    ws.iter().map(|w| w.chars().collect()).collect()
}

#[test]
fn tokens_apply_as_the_typed_action_does() {
    let mut save = fresh();
    save.game.market = Market::with_prices([10, 10, 10, 10]);
    save.game.cash = 1000;
    let typed = apply(&save, "BUY General 10").unwrap();
    let given = apply_tokens(&save, &words(&["buy", "general", "10"])).unwrap();
    assert_eq!(typed.game.cash, 900);
    assert_eq!(given.game.cash, 900);
    assert_eq!(given.game.hold.units(), typed.game.hold.units());
    assert_eq!(given.last_event, typed.last_event);
}

#[test]
fn tokens_name_unknown_goods_as_errors() {
    let save = fresh();
    let err = apply_tokens(&save, &words(&["buy", "gold", "5"])).unwrap_err();
    assert!(err.contains("expected a good"));
}

#[test]
fn storing_away_from_home_is_refused() {
    let mut save = fresh();
    save.game.location = Port::Shanghai;
    let before = to_json(&save);
    let err = apply(&save, "store silk 5").unwrap_err();
    assert!(err.contains("Hong Kong"));
    assert_eq!(to_json(&save), before);
}

#[test]
fn borrowing_reports_what_was_lent() {
    let mut save = fresh();
    save.game.cash = u32::MAX - 50;
    let debt0 = save.game.debt;
    let save = apply(&save, "borrow 100").unwrap();
    assert_eq!(save.last_event, "Borrowed 50.");
    assert_eq!(save.game.cash, u32::MAX);
    assert_eq!(save.game.debt, debt0 + 50);
}
