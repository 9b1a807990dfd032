use stratum_server::difficulty::{format_difficulty, Difficulties, Difficulty, MAX_DIFF};

#[test]
fn test_difficulty_log2() {
    for i in 1..64 {
        assert_eq!(Difficulty::from(2u64.pow(i)).log2(), i as u8);
    }
}

#[test]
fn difficulty_rounds_down_to_power_of_two() {
    assert_eq!(Difficulty::from(0).as_u64(), 0);
    assert!(Difficulty::from(0).is_zero());
    assert_eq!(Difficulty::from(1).as_u64(), 1);
    assert_eq!(Difficulty::from(3).as_u64(), 2);
    assert_eq!(Difficulty::from(1000).as_u64(), 512);
    assert_eq!(Difficulty::from(16384).as_u64(), 16384);
    assert_eq!(Difficulty::from(16385).as_u64(), 16384);
    assert_eq!(Difficulty::from(u64::MAX).as_u64(), MAX_DIFF);
    assert_eq!(Difficulty::from(MAX_DIFF).as_u64(), MAX_DIFF);
    assert_eq!(Difficulty::from(MAX_DIFF - 1).as_u64(), MAX_DIFF / 2);
    assert_eq!(format_difficulty(100), 64);
}

#[test]
fn difficulty_round_trip() {
    for x in [0u64, 1, 2, 5, 77, 4096, 123_456_789, MAX_DIFF - 3, u64::MAX] {
        let d = Difficulty::from(x);
        assert_eq!(Difficulty::from(d.as_u64()).as_u64(), d.as_u64());
    }
}

#[test]
fn difficulty_closure() {
    for x in [1u64, 6, 999, 1 << 40, (1 << 40) + 1, u64::MAX] {
        let v = Difficulty::from(x).as_u64();
        assert!(v.is_power_of_two());
        assert!(v <= MAX_DIFF);
    }
}

#[test]
fn difficulties_shift_promotes_next() {
    let mut d = Difficulties::new_only_current(Difficulty::from(64));
    assert!(d.next().is_none());
    assert!(d.shift().is_none());
    assert_eq!(d.current().as_u64(), 64);
    d.update_next(Difficulty::from(128));
    assert_eq!(d.next().map(|x| x.as_u64()), Some(128));
    let r = d.shift();
    assert_eq!(r.map(|x| x.as_u64()), Some(128));
    assert_eq!(d.current().as_u64(), 128);
    assert_eq!(d.previous().as_u64(), 64);
    assert!(d.next().is_none());
}

#[test]
fn difficulties_set_and_shift_drops_pending() {
    let mut d = Difficulties::new(Difficulty::from(64), Difficulty::zero(), Difficulty::from(256));
    d.set_and_shift(Difficulty::from(32));
    assert_eq!(d.current().as_u64(), 32);
    assert_eq!(d.previous().as_u64(), 64);
    assert!(d.next().is_none());
}
