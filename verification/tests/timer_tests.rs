use target_range::timer::{Stopwatch, Timer};

#[test]
fn timer_counts_down_and_finishes_on_third_update() {
    let mut t = Timer::new_finished();
    t.reset(3000);
    assert!(!t.is_finished());
    t.update(1000);
    assert!(!t.is_finished());
    assert_eq!(t.get_duration(), 2000);
    t.update(1000);
    assert!(!t.is_finished());
    assert_eq!(t.get_duration(), 1000);
    t.update(1000);
    assert!(t.is_finished());
    assert_eq!(t.get_duration(), 0);
}

#[test]
fn timer_clamps_at_zero_never_negative() {
    let mut t = Timer::new(500);
    t.update(10_000);
    assert_eq!(t.get_duration(), 0);
    t.update(1);
    assert_eq!(t.get_duration(), 0);
    assert!(t.is_finished());
}

#[test]
fn timer_new_finished_is_finished() {
    let t = Timer::new_finished();
    assert!(t.is_finished());
    assert_eq!(t.get_duration(), 0);
}

#[test]
fn stopwatch_accumulates_and_resets() {
    let mut s = Stopwatch::new();
    assert_eq!(s.get_duration(), 0);
    s.update(250);
    s.update(750);
    assert_eq!(s.get_duration(), 1000);
    s.reset();
    assert_eq!(s.get_duration(), 0);
}
