use taipan::rng::Rng;

#[test]
fn same_seed_same_sequence() {
    let mut a = Rng::new(42);
    let mut b = Rng::new(42);
    for _ in 0..1000 {
        assert_eq!(a.next_u64(), b.next_u64());
    }
}

#[test]
fn different_seeds_differ() {
    let mut a = Rng::new(1);
    let mut b = Rng::new(2);
    assert_ne!(a.next_u64(), b.next_u64());
}

#[test]
fn seed_zero_does_not_collapse() {
    let mut r = Rng::new(0);
    let first = r.next_u64();
    let second = r.next_u64();
    assert_ne!(first, 0);
    assert_ne!(first, second);
}

#[test]
fn range_is_inclusive_and_bounded() {
    let mut r = Rng::new(7);
    for _ in 0..10_000 {
        let v = r.range(5, 10);
        assert!((5..=10).contains(&v), "value {v} out of [5,10]");
    }
}

#[test]
fn range_single_value() {
    let mut r = Rng::new(99);
    assert_eq!(r.range(3, 3), 3);
}

#[test]
fn range_covers_both_endpoints() {
    let mut r = Rng::new(123);
    let mut saw_low = false;
    let mut saw_high = false;
    for _ in 0..10_000 {
        match r.range(0, 1) {
            0 => saw_low = true,
            1 => saw_high = true,
            other => panic!("unexpected {other}"),
        }
    }
    assert!(saw_low && saw_high, "did not see both endpoints");
}

#[test]
fn chance_zero_never_true() {
    let mut r = Rng::new(5);
    for _ in 0..1000 {
        assert!(!r.chance(0, 10));
    }
}

#[test]
fn chance_full_always_true() {
    let mut r = Rng::new(5);
    for _ in 0..1000 {
        assert!(r.chance(10, 10));
    }
}

// ---- further cases ----

#[test]
fn first_draw_of_seed_one_is_exact() {
    // From state 1: x ^= x >> 12 leaves 1, x ^= x << 25 gives 0x2000001,
    // and x ^= x >> 27 leaves 0x2000001.
    let mut r = Rng::new(1);
    let v = r.next_u64();
    assert_eq!(r.state(), 0x2000001);
    assert_eq!(v, 0x2000001u64.wrapping_mul(0x2545F4914F6CDD1D));
}

#[test]
fn from_state_keeps_the_state_as_given() {
    let r = Rng::from_state(12345);
    assert_eq!(r.state(), 12345);
    assert_ne!(Rng::new(0).state(), 0);
}
