use taipan::combat::Battle;
use taipan::game::{Game, Outcome, WIN_TARGET};
use taipan::travel::Port;
use taipan::rng::Rng;
use taipan::run::{run, run_game, Session};
use taipan::ui::ScriptedIo;
use taipan::action::apply;
use taipan::state::{save_from, Pending};

#[test]
fn quit_ends_cleanly() {
    let mut io = ScriptedIo::new(&["Q"]);
    let mut rng = Rng::new(1);
    let outcome = run(&mut io, &mut rng);
    assert_eq!(outcome, None);
    assert!(io.output.contains("abandoned"));
}

#[test]
fn input_exhaustion_ends_loop() {
    let mut io = ScriptedIo::new(&[]);
    let mut rng = Rng::new(1);
    let outcome = run(&mut io, &mut rng);
    assert_eq!(outcome, None);
    assert!(io.output.contains("Taipan!"));
}

#[test]
fn buy_then_status_reflects_cargo() {
    let mut io = ScriptedIo::new(&["B", "General", "1", "Q"]);
    let mut rng = Rng::new(1);
    run(&mut io, &mut rng);
    assert!(io.output.contains("Bought 1 General Cargo"));
}

#[test]
fn cannot_retire_below_target() {
    let mut io = ScriptedIo::new(&["R", "Q"]);
    let mut rng = Rng::new(1);
    let outcome = run(&mut io, &mut rng);
    assert_eq!(outcome, None);
    assert!(io.output.contains("you need a net worth"));
}

#[test]
fn win_when_rich_and_retire() {
    let mut io = ScriptedIo::new(&["K", "D", "100", "K", "W", "50", "Q"]);
    let mut rng = Rng::new(1);
    run(&mut io, &mut rng);
    assert!(io.output.contains("Deposited 100"));
    assert!(io.output.contains("Withdrew 50"));
}

#[test]
fn unknown_command_is_handled() {
    let mut io = ScriptedIo::new(&["Z", "Q"]);
    let mut rng = Rng::new(1);
    run(&mut io, &mut rng);
    assert!(io.output.contains("I don't understand"));
}

#[test]
fn full_playthrough_is_deterministic() {
    fn play() -> String {
        let mut io = ScriptedIo::new(&["B", "General", "5", "T", "2", "S", "General", "5", "Q"]);
        let mut rng = Rng::new(2024);
        run(&mut io, &mut rng);
        io.output
    }
    assert_eq!(play(), play());
}

// ---- further cases ----

#[test]
fn a_rich_game_retires_a_winner_through_the_loop() {
    let mut rng = Rng::new(1);
    let mut g = Game::new(&mut rng);
    g.debt = 0;
    g.bank = WIN_TARGET;
    let mut io = ScriptedIo::new(&["R", "Q"]);
    let outcome = run_game(&mut io, g, &mut rng);
    assert_eq!(outcome, Some(Outcome::Won));
    assert!(io.output.contains("You can retire a millionaire!"));
    assert!(io.output.contains("Taipan, you retire with a net worth of 1000400!"));
    // The loop ended before reading "Q".
    assert!(!io.inputs_exhausted());
}

#[test]
fn the_bank_is_only_at_home() {
    let mut rng = Rng::new(1);
    let mut g = Game::new(&mut rng);
    g.location = taipan::travel::Port::Manila;
    let mut io = ScriptedIo::new(&["K", "Q"]);
    run_game(&mut io, g, &mut rng);
    assert!(io.output.contains("The bank and Elder Brother Wu are only in Hong Kong, Taipan."));
}

#[test]
fn a_session_can_be_fed_line_by_line() {
    let mut rng = Rng::new(1);
    let g = Game::new(&mut rng);
    let (mut s, opening) = Session::start(g);
    assert!(opening.contains("[classic economy]"));
    let out = s.feed(Some("b".to_string()), &mut rng);
    assert_eq!(out, "What do you wish to buy (Opium/Silk/Arms/General)? ");
    let out = s.feed(Some("x".to_string()), &mut rng);
    assert!(out.starts_with("'x' is not a good I trade, Taipan.\n"));
    let out = s.feed(None, &mut rng);
    assert_eq!(out, "\n");
    assert!(s.is_over());
    assert_eq!(s.game().cash, 400);
}

#[test]
fn both_front_ends_sail_alike() {
    for seed in 1u64..=40 {
        let mut rng = Rng::new(seed);
        let g = Game::new(&mut rng);
        let save = save_from(&g, &rng, "start");
        let stepped = apply(&save, "travel shanghai").unwrap();

        let (mut s, _) = Session::start(g);
        s.feed(Some("T".to_string()), &mut rng);
        s.feed(Some("2".to_string()), &mut rng);
        let played = s.game();
        assert_eq!(stepped.rng_state, rng.state());
        assert_eq!(stepped.game.cash, played.cash);
        assert_eq!(stepped.game.debt, played.debt);
        assert_eq!(stepped.game.bank, played.bank);
        assert_eq!(stepped.game.location, played.location);
        assert_eq!(stepped.game.market.prices(), played.market.prices());
        let in_battle = matches!(stepped.pending, Pending::Combat { .. });
        assert_eq!(in_battle, !s.at_turn_start());
    }
}

#[test]
fn a_menu_key_is_answered_as_typed() {
    let rng = Rng::new(1);
    let mut g_rng = Rng::new(1);
    let game = Game::new(&mut g_rng);
    let (mut session, _) = Session::start(game);
    let out = session.on_menu_key(&vec!['Q'], &rng);
    let text: String = out.iter().collect();
    assert!(text.contains("abandoned"));
    assert!(session.is_over());

    let (mut session, _) = Session::start(game);
    let out = session.on_menu_key(&vec!['X'], &rng);
    let text: String = out.iter().collect();
    assert!(text.contains("I don't understand 'X'"));
    assert!(!session.is_over());
}

#[test]
fn the_pirates_wait_for_a_real_answer() {
    let mut rng = Rng::new(5);
    let mut g_rng = Rng::new(1);
    let game = Game::new(&mut g_rng);
    let (mut session, _) = Session::start(game);
    let state = rng.state();
    let out = session.on_battle_key(Battle::new(2), Port::Shanghai, &vec!['X'], &mut rng);
    let text: String = out.iter().collect();
    assert!(text.starts_with("'X'? The pirates wait, Taipan.\n"));
    assert!(text.ends_with("Will you (F)ight, (R)un, or (T)hrow cargo? "));
    assert!(text.contains("2 pirate ships remain"));
    assert_eq!(rng.state(), state);
    assert_eq!(session.game().cash, game.cash);
    assert_eq!(session.game().health, game.health);
}
