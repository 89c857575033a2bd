use taipan::market::{buy, sell, Good, Hold, Market, TradeError};
use taipan::rng::Rng;

#[test]
fn good_parse_prefixes() {
    assert_eq!(Good::parse("o"), Some(Good::Opium));
    assert_eq!(Good::parse("OPIUM"), Some(Good::Opium));
    assert_eq!(Good::parse("si"), Some(Good::Silk));
    assert_eq!(Good::parse("ar"), Some(Good::Arms));
    assert_eq!(Good::parse("g"), Some(Good::General));
    assert_eq!(Good::parse(" general "), Some(Good::General));
    assert_eq!(Good::parse("x"), None);
    assert_eq!(Good::parse(""), None);
}

#[test]
fn generated_prices_in_range() {
    let mut rng = Rng::new(2024);
    for _ in 0..1000 {
        let m = Market::generate(&mut rng);
        assert!((500..=1500).contains(&m.price(Good::Opium)));
        assert!((40..=180).contains(&m.price(Good::Silk)));
        assert!((350..=900).contains(&m.price(Good::Arms)));
        assert!((10..=50).contains(&m.price(Good::General)));
    }
}

#[test]
fn buy_deducts_cash_and_loads_hold() {
    let m = Market::with_prices([100, 0, 0, 0]);
    let mut hold = Hold::new(60);
    let mut cash = 1000;
    let cost = buy(&m, &mut hold, &mut cash, Good::Opium, 5).unwrap();
    assert_eq!(cost, 500);
    assert_eq!(cash, 500);
    assert_eq!(hold.quantity(Good::Opium), 5);
    assert_eq!(hold.used(), 5);
}

#[test]
fn buy_rejects_when_too_expensive() {
    let m = Market::with_prices([100, 0, 0, 0]);
    let mut hold = Hold::new(60);
    let mut cash = 250;
    let err = buy(&m, &mut hold, &mut cash, Good::Opium, 3).unwrap_err();
    assert_eq!(err, TradeError::NotEnoughCash { affordable: 2 });
    assert_eq!(cash, 250);
    assert_eq!(hold.used(), 0);
}

#[test]
fn buy_rejects_when_hold_full() {
    let m = Market::with_prices([1, 0, 0, 0]);
    let mut hold = Hold::new(10);
    let mut cash = 100_000;
    let err = buy(&m, &mut hold, &mut cash, Good::Opium, 11).unwrap_err();
    assert_eq!(err, TradeError::NotEnoughHold { space: 10 });
    assert_eq!(hold.used(), 0);
}

#[test]
fn sell_adds_cash_and_unloads_hold() {
    let m = Market::with_prices([100, 0, 0, 0]);
    let mut hold = Hold::new(60);
    let mut cash = 1000;
    buy(&m, &mut hold, &mut cash, Good::Opium, 5).unwrap();
    let sell_market = Market::with_prices([200, 0, 0, 0]);
    let proceeds = sell(&sell_market, &mut hold, &mut cash, Good::Opium, 5).unwrap();
    assert_eq!(proceeds, 1000);
    assert_eq!(cash, 1500);
    assert_eq!(hold.quantity(Good::Opium), 0);
}

#[test]
fn sell_rejects_more_than_held() {
    let m = Market::with_prices([100, 0, 0, 0]);
    let mut hold = Hold::new(60);
    let mut cash = 1000;
    buy(&m, &mut hold, &mut cash, Good::Opium, 2).unwrap();
    let err = sell(&m, &mut hold, &mut cash, Good::Opium, 3).unwrap_err();
    assert_eq!(err, TradeError::NotEnoughGoods { held: 2 });
}

#[test]
fn jettison_caps_at_held() {
    let mut hold = Hold::new(60);
    let m = Market::with_prices([1, 0, 0, 0]);
    let mut cash = 1000;
    buy(&m, &mut hold, &mut cash, Good::Opium, 5).unwrap();
    assert_eq!(hold.jettison(Good::Opium, 10), 5);
    assert_eq!(hold.quantity(Good::Opium), 0);
}

#[test]
fn hold_free_space_tracks_usage() {
    let mut hold = Hold::new(60);
    assert_eq!(hold.free(), 60);
    let m = Market::with_prices([1, 1, 1, 1]);
    let mut cash = 1000;
    buy(&m, &mut hold, &mut cash, Good::Silk, 20).unwrap();
    assert_eq!(hold.free(), 40);
    hold.expand(40);
    assert_eq!(hold.free(), 80);
}

// ---- further cases ----

#[test]
fn sale_proceeds_saturate_at_the_cash_ceiling() {
    let m = Market::with_prices([u32::MAX, 0, 0, 0]);
    let mut hold = Hold::from_parts(60, [2, 0, 0, 0]);
    let mut cash = 0;
    assert!(sell(&m, &mut hold, &mut cash, Good::Opium, 2).is_ok());
    assert_eq!(cash, u32::MAX);
}

#[test]
fn goods_have_names_indices_and_slots() {
    for (i, g) in Good::ALL.iter().enumerate() {
        assert_eq!(g.index(), i);
        assert_eq!(Good::from_index(i), *g);
    }
    assert_eq!(Good::General.name(), "General Cargo");
}

#[test]
fn set_price_overwrites_one_good() {
    let mut m = Market::with_prices([1, 2, 3, 4]);
    m.set_price(Good::Arms, 99);
    assert_eq!(m.prices(), [1, 2, 99, 4]);
}

#[test]
fn biased_market_stays_in_range() {
    let mut rng = Rng::new(5);
    for _ in 0..500 {
        let m = Market::generate_for([50, -50, 50, -50], &mut rng);
        assert!((500..=1500).contains(&m.price(Good::Opium)));
        assert!((40..=180).contains(&m.price(Good::Silk)));
        assert!((350..=900).contains(&m.price(Good::Arms)));
        assert!((10..=50).contains(&m.price(Good::General)));
    }
}

#[test]
fn bias_never_changes_the_draws() {
    let mut a = Rng::new(31);
    let mut b = Rng::new(31);
    Market::generate(&mut a);
    Market::generate_for([40, -40, 25, -10], &mut b);
    assert_eq!(a.state(), b.state());
}

#[test]
fn zero_bias_prices_are_the_plain_draws() {
    let mut a = Rng::new(77);
    let m = Market::generate(&mut a);
    let mut b = Rng::new(77);
    let expected = [b.range(500, 1500), b.range(40, 180), b.range(350, 900), b.range(10, 50)];
    assert_eq!(m.prices(), expected);
}

#[test]
fn more_bias_never_lowers_a_price() {
    for seed in 1..=200u64 {
        let low = Market::generate_for([-30, 0, 10, 50], &mut Rng::new(seed));
        let high = Market::generate_for([-10, 20, 10, 80], &mut Rng::new(seed));
        for g in [Good::Opium, Good::Silk, Good::Arms, Good::General] {
            assert!(low.price(g) <= high.price(g));
        }
    }
}
