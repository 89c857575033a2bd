use taipan::economy::EconomyMode;
use taipan::game::Outcome;
use taipan::market::Hold;
use taipan::rng::Rng;
use taipan::state::{from_json, new_save, save_from, to_json, Pending, Save};

fn sample_save() -> Save {
    new_save(EconomyMode::Trader, 17)
}

#[test]
fn round_trips_a_fresh_game() {
    let save = sample_save();
    let json = to_json(&save);
    let back = from_json(&json).expect("parse");
    assert_eq!(back.game.cash, save.game.cash);
    assert_eq!(back.game.debt, save.game.debt);
    assert_eq!(back.game.location, save.game.location);
    assert_eq!(back.game.mode, save.game.mode);
    assert_eq!(back.game.guns, save.game.guns);
    assert_eq!(back.game.health, save.game.health);
    assert_eq!(back.rng_state, save.rng_state);
    assert_eq!(back.pending, Pending::Command);
    assert_eq!(back.game.market.prices(), save.game.market.prices());
}

#[test]
fn round_trips_hold_and_warehouse() {
    let mut save = sample_save();
    save.game.hold = Hold::from_parts(60, [1, 2, 3, 4]);
    save.game.warehouse = [5, 6, 7, 8];
    let json = to_json(&save);
    let back = from_json(&json).unwrap();
    assert_eq!(back.game.hold.units(), [1, 2, 3, 4]);
    assert_eq!(back.game.warehouse, [5, 6, 7, 8]);
}

#[test]
fn round_trips_a_battle_in_progress() {
    let mut save = sample_save();
    save.pending = Pending::Combat { enemies: vec![2, 1, 2], sunk: 1 };
    let json = to_json(&save);
    let back = from_json(&json).unwrap();
    let battle = back.battle().unwrap();
    assert_eq!(battle.enemies_remaining(), 3);
    assert_eq!(battle.sunk(), 1);
    match &back.pending {
        Pending::Combat { enemies, sunk } => {
            assert_eq!(*enemies, vec![2, 1, 2]);
            assert_eq!(*sunk, 1);
        }
        other => panic!("expected combat, got {other:?}"),
    }
}

#[test]
fn rng_state_restores_exact_future_sequence() {
    let mut original = Rng::new(999);
    for _ in 0..37 {
        original.next_u64();
    }
    let saved = original.state();
    let mut restored = Rng::from_state(saved);
    for _ in 0..100 {
        assert_eq!(original.next_u64(), restored.next_u64());
    }
}

#[test]
fn outcome_round_trips() {
    let mut save = sample_save();
    save.game.outcome = Some(Outcome::Won);
    let back = from_json(&to_json(&save)).unwrap();
    assert_eq!(back.game.outcome, Some(Outcome::Won));
}

#[test]
fn missing_field_is_an_error_not_a_panic() {
    let err = from_json("{ \"cash\": 5 }").unwrap_err();
    assert!(!err.is_empty());
}

#[test]
fn last_event_with_quotes_round_trips() {
    let mut save = sample_save();
    save.last_event = "The \"Sea Witch\" attacks! Tabs:\tend".to_string();
    let back = from_json(&to_json(&save)).unwrap();
    assert_eq!(back.last_event, save.last_event);
}

#[test]
fn save_carries_version_and_rejects_mismatch() {
    let json = to_json(&sample_save());
    assert!(json.contains("\"version\": 1"), "save should carry a version");
    let bumped = json.replace("\"version\": 1", "\"version\": 999");
    let err = from_json(&bumped).unwrap_err();
    assert!(err.contains("version"), "expected version error, got: {err}");
    let stripped = json.replace("\"version\": 1,\n", "");
    assert!(from_json(&stripped).is_err());
}

#[test]
fn corrupt_hold_over_capacity_is_rejected() {
    let mut save = sample_save();
    save.game.hold = Hold::from_parts(10, [20, 0, 0, 0]);
    let json = to_json(&save);
    let err = from_json(&json).unwrap_err();
    assert!(err.contains("capacity"), "expected capacity error, got: {err}");
}

#[test]
fn emitted_json_is_machine_parseable_shape() {
    let json = to_json(&sample_save());
    for key in ["\"pending\"", "\"cash\"", "\"prices\"", "\"location\"", "\"net_worth\"", "\"outcome\""] {
        assert!(json.contains(key), "output missing {key}");
    }
}

// ---- further cases ----

#[test]
fn missing_version_gets_the_legacy_message() {
    let json = to_json(&sample_save());
    let stripped = json.replace("\"version\": 1,\n", "");
    assert_eq!(
        from_json(&stripped).unwrap_err(),
        "save predates version 1 (no version field); please start a new game"
    );
}

#[test]
fn wrong_version_message_is_exact() {
    let json = to_json(&sample_save()).replace("\"version\": 1", "\"version\": 999");
    assert_eq!(
        from_json(&json).unwrap_err(),
        "save is version 999, but this build uses version 1; please start a new game"
    );
}

#[test]
fn over_health_is_rejected() {
    let mut save = sample_save();
    save.game.health = 150;
    let err = from_json(&to_json(&save)).unwrap_err();
    assert_eq!(err, "corrupt save: health 150 exceeds the maximum 100");
}

#[test]
fn unknown_port_is_rejected() {
    let json = to_json(&sample_save()).replace("\"location\": \"Hong Kong\"", "\"location\": \"Atlantis\"");
    assert_eq!(from_json(&json).unwrap_err(), "unknown port 'Atlantis'");
}

#[test]
fn a_fresh_save_has_the_expected_fields() {
    let save = new_save(EconomyMode::Classic, 1);
    let json = to_json(&save);
    assert!(json.starts_with("{\n  \"version\": 1,\n  \"pending\": \"command\",\n"));
    assert!(json.contains("\"at_home\": true"));
    assert!(json.contains("\"hold_free\": 60"));
    assert!(json.ends_with("\n}\n"));
}

#[test]
fn save_from_snapshots_a_live_game() {
    let save = new_save(EconomyMode::Classic, 5);
    let rng = Rng::from_state(save.rng_state);
    let snap = save_from(&save.game, &rng, "hello");
    assert_eq!(snap.rng_state, save.rng_state);
    assert_eq!(snap.pending, Pending::Command);
    assert_eq!(snap.last_event, "hello");
}

#[test]
fn escapes_round_trip_backslashes_and_newlines() {
    let mut save = sample_save();
    save.last_event = "a\\b\nc \"d\": e".to_string();
    let back = from_json(&to_json(&save)).unwrap();
    assert_eq!(back.last_event, save.last_event);
    assert_eq!(back.game.cash, save.game.cash);
}

#[test]
fn the_printed_state_is_one_line() {
    let save = sample_save();
    let line = taipan::line::to_json_line(&save);
    assert!(!line.contains('\n'));
    assert!(line.starts_with("{\"version\": 1,"));
    assert!(line.contains("\"cash\": "));
    assert_eq!(line.matches('"').count(), to_json(&save).matches('"').count());
}
