use lingxi_ascendc::headless::watchdog::{Watchdog, WatchdogTick};

const SECOND: u128 = 1_000_000_000;

#[test]
fn idle_expires_after_window() {
    let dog = Watchdog::new(0, 10 * SECOND, None);
    assert_eq!(dog.tick(11 * SECOND), WatchdogTick::IdleExpired);
    assert_eq!(dog.tick(10 * SECOND), WatchdogTick::IdleExpired);
    assert_eq!(dog.tick(10 * SECOND - 1), WatchdogTick::Continue);
}

#[test]
fn activity_resets_idle() {
    let mut dog = Watchdog::new(0, 10 * SECOND, None);
    let before = dog.next_deadline();
    dog.note_activity(8 * SECOND);
    let after = dog.next_deadline();
    assert!(after > before, "expected deadline to advance; before={before:?} after={after:?}");
    assert_eq!(after, 18 * SECOND);
}

#[test]
fn hard_deadline_expires_even_with_activity() {
    let mut dog = Watchdog::new(0, 10 * SECOND, Some(15 * SECOND));
    for n in 1..=20 {
        dog.note_activity(n * SECOND);
    }
    assert_eq!(dog.next_deadline(), 15 * SECOND);
    assert_eq!(dog.tick(20 * SECOND), WatchdogTick::HardExpired);
}

#[test]
fn the_earlier_timer_is_the_next_deadline() {
    assert_eq!(Watchdog::new(1, 10, Some(4)).next_deadline(), 5);
    assert_eq!(Watchdog::new(1, 10, Some(40)).next_deadline(), 11);
}
