use taipan::game::Game;
use taipan::market::Good;
use taipan::rng::Rng;
use taipan::travel::Port;
use taipan::ui::{render_prices, render_status, render_travel_menu, Io, ScriptedIo};

#[test]
fn scripted_io_feeds_inputs_in_order() {
    let mut io = ScriptedIo::new(&["B", "Opium", "5"]);
    assert_eq!(io.read_line(), Some("B".to_string()));
    assert_eq!(io.read_line(), Some("Opium".to_string()));
    assert_eq!(io.read_line(), Some("5".to_string()));
    assert_eq!(io.read_line(), None);
    assert!(io.inputs_exhausted());
}

#[test]
fn scripted_io_captures_output() {
    let mut io = ScriptedIo::new(&[]);
    io.writeln("hello");
    io.write("no-newline");
    assert_eq!(io.output, "hello\nno-newline");
}

#[test]
fn render_status_includes_key_fields() {
    let mut rng = Rng::new(1);
    let game = Game::new(&mut rng);
    let mut io = ScriptedIo::new(&[]);
    render_status(&mut io, &game);
    assert!(io.output.contains("Comprador's Report"));
    assert!(io.output.contains("Hong Kong"));
    assert!(io.output.contains("Cash        : 400"));
    assert!(io.output.contains("Debt        : 5000"));
}

#[test]
fn render_prices_lists_all_goods() {
    let mut rng = Rng::new(1);
    let game = Game::new(&mut rng);
    let mut io = ScriptedIo::new(&[]);
    render_prices(&mut io, &game);
    for g in Good::ALL {
        assert!(io.output.contains(g.name()), "missing {}", g.name());
    }
}

#[test]
fn render_travel_menu_lists_seven_ports() {
    let mut io = ScriptedIo::new(&[]);
    render_travel_menu(&mut io);
    for p in Port::ALL {
        assert!(io.output.contains(p.name()), "missing {}", p.name());
    }
    assert!(io.output.contains("1) Hong Kong"));
    assert!(io.output.contains("7) Batavia"));
}

// ---- further cases ----

#[test]
fn status_lists_cargo_and_pads_the_capacity() {
    let mut rng = Rng::new(1);
    let mut game = Game::new(&mut rng);
    game.market = taipan::market::Market::with_prices([1, 1, 1, 1]);
    game.buy(Good::Arms, 3).unwrap();
    let mut io = ScriptedIo::new(&[]);
    render_status(&mut io, &game);
    assert!(io.output.contains("   Hold ( 60) : 3 used, 57 free\n"));
    assert!(io.output.contains("      Arms          : 3\n"));
    assert!(!io.output.contains("      Silk          :"));
}

#[test]
fn travel_menu_text_is_exact() {
    let mut io = ScriptedIo::new(&[]);
    render_travel_menu(&mut io);
    assert!(io.output.starts_with("\nWhere do you wish to travel?\n  1) Hong Kong\n  2) Shanghai\n"));
}

#[test]
fn put_appends_without_reading() {
    let mut io = ScriptedIo::new(&["x"]);
    io.put("abc");
    assert_eq!(io.output, "abc");
    assert!(!io.inputs_exhausted());
}
