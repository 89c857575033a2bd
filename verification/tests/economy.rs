use taipan::economy::{biases_for, EconomyMode};
use taipan::market::Good;
use taipan::travel::Port;

#[test]
fn parse_round_trips() {
    assert_eq!(EconomyMode::parse("classic"), Some(EconomyMode::Classic));
    assert_eq!(EconomyMode::parse("Trader"), Some(EconomyMode::Trader));
    assert_eq!(EconomyMode::parse(" TRADER "), Some(EconomyMode::Trader));
    assert_eq!(EconomyMode::parse("nonsense"), None);
    assert_eq!(EconomyMode::parse(""), None);
}

#[test]
fn classic_has_no_bias_anywhere() {
    for port in Port::ALL {
        assert_eq!(biases_for(EconomyMode::Classic, port), [0; 4]);
    }
}

#[test]
fn trader_bias_is_nonzero_and_bounded() {
    for port in Port::ALL {
        let b = biases_for(EconomyMode::Trader, port);
        assert!(b.iter().any(|&x| x != 0), "{} is flat", port.name());
        for &x in &b {
            assert!((-50..=50).contains(&x), "{} bias {x} out of band", port.name());
        }
    }
}

#[test]
fn every_good_is_cheap_somewhere_and_dear_somewhere() {
    for good in Good::ALL {
        let mut min = i32::MAX;
        let mut max = i32::MIN;
        for port in Port::ALL {
            let v = biases_for(EconomyMode::Trader, port)[good.index()];
            min = min.min(v);
            max = max.max(v);
        }
        assert!(min < 0, "{} is never cheap to buy", good.name());
        assert!(max > 0, "{} is never dear to sell", good.name());
        assert!(max - min >= 40, "{} spread {} too thin to profit", good.name(), max - min);
    }
}

// ---- further cases ----

#[test]
fn mode_names_round_trip_through_parse() {
    for m in [EconomyMode::Classic, EconomyMode::Trader] {
        assert_eq!(EconomyMode::parse(m.name()), Some(m));
    }
}

#[test]
fn hong_kong_trader_row_is_exact() {
    assert_eq!(biases_for(EconomyMode::Trader, Port::HongKong), [40, 10, 30, -35]);
}
