use taipan::travel::Port;

#[test]
fn menu_numbers_are_one_based_and_unique() {
    let nums: Vec<u32> = Port::ALL.iter().map(|p| p.menu_number()).collect();
    assert_eq!(nums, vec![1, 2, 3, 4, 5, 6, 7]);
}

#[test]
fn from_menu_number_round_trips() {
    for p in Port::ALL {
        assert_eq!(Port::from_menu_number(p.menu_number()), Some(p));
    }
}

#[test]
fn from_menu_number_rejects_out_of_range() {
    assert_eq!(Port::from_menu_number(0), None);
    assert_eq!(Port::from_menu_number(8), None);
    assert_eq!(Port::from_menu_number(999), None);
}

#[test]
fn home_is_hong_kong() {
    assert_eq!(Port::HOME, Port::HongKong);
}

#[test]
fn distance_is_symmetric_and_zero_to_self() {
    assert_eq!(Port::HongKong.distance(Port::HongKong), 0);
    assert_eq!(Port::HongKong.distance(Port::Batavia), Port::Batavia.distance(Port::HongKong));
    assert!(Port::HongKong.distance(Port::Batavia) > 0);
}

// ---- further cases ----

#[test]
fn port_names_are_as_displayed() {
    assert_eq!(Port::HongKong.name(), "Hong Kong");
    assert_eq!(Port::Batavia.name(), "Batavia");
}

#[test]
fn distance_of_far_ends_is_six() {
    assert_eq!(Port::HongKong.distance(Port::Batavia), 6);
}
