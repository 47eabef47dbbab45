//! The rate limiter on concrete firing sequences.

use xddmod::poor_man_throttling::Throttle;

#[test]
fn first_firing_is_always_allowed() {
    let mut t = Throttle::new(15);
    assert!(!t.should_throttle(1, false, 100));
    assert!(!t.should_throttle(2, false, 100));
}

#[test]
fn a_second_firing_within_the_window_is_suppressed() {
    let mut t = Throttle::new(15);
    assert!(!t.should_throttle(1, false, 100));
    assert!(t.should_throttle(1, false, 110));
    assert!(t.should_throttle(1, false, 114));
}

#[test]
fn after_the_window_the_rule_fires_again() {
    let mut t = Throttle::new(15);
    assert!(!t.should_throttle(1, false, 100));
    assert!(!t.should_throttle(1, false, 115));
    // the allowed firing re-arms the window from its own time
    assert!(t.should_throttle(1, false, 129));
    assert!(!t.should_throttle(1, false, 130));
}

#[test]
fn a_privileged_sender_is_never_suppressed() {
    let mut t = Throttle::new(15);
    assert!(!t.should_throttle(1, false, 100));
    assert!(!t.should_throttle(1, true, 101));
    assert!(!t.should_throttle(1, true, 102));
    // and the privileged pass does not reset the ordinary window
    assert!(t.should_throttle(1, false, 103));
}

#[test]
fn rules_are_throttled_independently() {
    let mut t = Throttle::new(15);
    assert!(!t.should_throttle(1, false, 100));
    assert!(!t.should_throttle(2, false, 101));
    assert!(t.should_throttle(1, false, 102));
    assert!(t.should_throttle(2, false, 102));
}
