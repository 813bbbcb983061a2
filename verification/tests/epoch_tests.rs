use rsis::epoch::EpochTime;

#[test]
fn fresh_clock_is_zeroed() {
    let t = EpochTime::new();
    assert_eq!(t.epoch, 0);
    assert_eq!(t.time, 0);
    assert_eq!(t.rollover, i64::MAX);
}

#[test]
fn increment_accumulates() {
    let mut t = EpochTime::new();
    t.increment(3);
    t.increment(4);
    assert_eq!(t.time, 7);
    assert_eq!(t.epoch, 0);
}

#[test]
fn increment_wraps_at_rollover() {
    let mut t = EpochTime { epoch: 0, time: 4, rollover: 5 };
    t.increment(1);
    assert_eq!(t.time, 0);
    assert_eq!(t.epoch, 1);
}

#[test]
fn twelve_ticks_with_rollover_five() {
    // after K single-tick increments the clock holds (K / R, K % R)
    let mut t = EpochTime { epoch: 0, time: 0, rollover: 5 };
    for _ in 0..12 {
        t.increment(1);
    }
    assert_eq!(t.epoch, 2);
    assert_eq!(t.time, 2);
}

#[test]
fn large_step_wraps_once() {
    let mut t = EpochTime { epoch: 3, time: 7, rollover: 10 };
    t.increment(8);
    assert_eq!(t.time, 5);
    assert_eq!(t.epoch, 4);
}
