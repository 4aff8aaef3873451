use shooter_core::timer::Timer;

#[test]
fn non_repeating_finishes_after_two_ticks() {
    let mut t = Timer::new(10, false);
    t.tick(6);
    assert!(!t.finished);
    assert_eq!(t.elapsed, 6);
    t.tick(6);
    assert!(t.finished);
    assert_eq!(t.elapsed, 12);
}

#[test]
fn non_repeating_stays_finished_until_reset() {
    let mut t = Timer::new(10, false);
    t.tick(12);
    assert!(t.finished);
    t.tick(1);
    assert!(t.finished);
    t.tick(0);
    assert!(t.finished);
    t.reset();
    assert!(!t.finished);
    assert_eq!(t.elapsed, 0);
}

#[test]
fn repeating_carries_remainder() {
    let mut t = Timer::new(10, true);
    t.tick(25);
    assert!(t.finished);
    assert_eq!(t.elapsed, 5);
}

#[test]
fn repeating_rearms_after_carry() {
    let mut t = Timer::new(10, true);
    t.tick(25);
    assert!(t.finished);
    t.tick(3);
    assert!(!t.finished);
    assert_eq!(t.elapsed, 8);
    t.tick(2);
    assert!(t.finished);
    assert_eq!(t.elapsed, 0);
}

#[test]
fn exact_boundary_finishes() {
    let mut t = Timer::new(10, false);
    t.tick(10);
    assert!(t.finished);
    assert_eq!(t.elapsed, 10);
}
