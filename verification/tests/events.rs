use taipan::events::{roll, Event};
use taipan::game::Game;
use taipan::market::{Good, Market};
use taipan::rng::Rng;

fn game() -> Game {
    let mut rng = Rng::new(1);
    Game::new(&mut rng)
}

#[test]
fn events_are_deterministic_per_seed() {
    fn stream() -> Vec<String> {
        let mut rng = Rng::new(31337);
        let mut g = game();
        (0..50).map(|_| format!("{:?}", roll(&mut g, &mut rng))).collect()
    }
    assert_eq!(stream(), stream());
}

#[test]
fn over_many_rolls_every_event_type_appears() {
    let mut rng = Rng::new(2024);
    let mut saw_pirates = false;
    let mut saw_extortion = false;
    let mut saw_spike = false;
    let mut saw_drop = false;
    let mut saw_quiet = false;
    for _ in 0..5000 {
        let mut g = game();
        g.cash = 10_000;
        g.market = Market::with_prices([1000, 100, 600, 30]);
        match roll(&mut g, &mut rng) {
            Event::Pirates(_) => saw_pirates = true,
            Event::LiYuenExtortion { taken } => {
                assert!(taken > 0);
                saw_extortion = true;
            }
            Event::PriceSpike { new_price, good } => {
                assert!(new_price >= g.market.price(good) || new_price > 0);
                saw_spike = true;
            }
            Event::PriceDrop { .. } => saw_drop = true,
            Event::Quiet => saw_quiet = true,
        }
    }
    assert!(saw_pirates, "never saw pirates");
    assert!(saw_extortion, "never saw extortion");
    assert!(saw_spike, "never saw a spike");
    assert!(saw_drop, "never saw a drop");
    assert!(saw_quiet, "never saw quiet");
}

#[test]
fn extortion_never_fires_when_broke() {
    let mut rng = Rng::new(9);
    for _ in 0..2000 {
        let mut g = game();
        g.cash = 0;
        if let Event::LiYuenExtortion { .. } = roll(&mut g, &mut rng) {
            panic!("extorted a broke trader");
        }
    }
}

#[test]
fn spike_raises_and_drop_lowers_relative_to_base() {
    let mut rng = Rng::new(123);
    for _ in 0..3000 {
        let mut g = game();
        g.cash = 0;
        g.market = Market::with_prices([1000, 100, 600, 30]);
        let before = [
            g.market.price(Good::Opium),
            g.market.price(Good::Silk),
            g.market.price(Good::Arms),
            g.market.price(Good::General),
        ];
        match roll(&mut g, &mut rng) {
            Event::PriceSpike { good, new_price } => {
                assert!(new_price >= before[good.index()]);
            }
            Event::PriceDrop { good, new_price } => {
                assert!(new_price <= before[good.index()]);
                assert!(new_price >= 1);
            }
            _ => {}
        }
    }
}

// ---- further cases ----

#[test]
fn extortion_takes_cash_out_of_the_purse() {
    let mut rng = Rng::new(2024);
    for _ in 0..5000 {
        let mut g = game();
        g.cash = 10_000;
        if let Event::LiYuenExtortion { taken } = roll(&mut g, &mut rng) {
            assert_eq!(g.cash, 10_000 - taken);
            return;
        }
    }
    panic!("never saw extortion");
}

#[test]
fn a_price_event_sets_the_market_price_it_reports() {
    let mut rng = Rng::new(77);
    for _ in 0..5000 {
        let mut g = game();
        g.cash = 0;
        match roll(&mut g, &mut rng) {
            Event::PriceSpike { good, new_price } | Event::PriceDrop { good, new_price } => {
                assert_eq!(g.market.price(good), new_price);
                return;
            }
            _ => {}
        }
    }
    panic!("never saw a price event");
}

#[test]
fn li_yuen_takes_a_tenth_to_three_tenths() {
    let mut seen = 0;
    for seed in 1..=3000u64 {
        let mut g = game();
        g.cash = 10_000;
        let mut rng = Rng::new(seed);
        let before = g.clone();
        match roll(&mut g, &mut rng) {
            Event::LiYuenExtortion { taken } => {
                seen += 1;
                assert!((1_000..=3_000).contains(&taken));
                assert_eq!(g.cash, 10_000 - taken);
                assert_eq!(g.market.prices(), before.market.prices());
            }
            Event::Pirates(_) | Event::Quiet => {
                assert_eq!(g.cash, before.cash);
                assert_eq!(g.market.prices(), before.market.prices());
            }
            _ => {}
        }
    }
    assert!(seen > 0);
}
