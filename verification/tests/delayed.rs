use delay_queue::{Delay, Delayed};
use std::time::{Duration, Instant};

#[test]
fn compare_until() {
    let delayed_one_hour = Delay::for_duration(123, Duration::from_secs(3600)).unwrap();
    let delayed_now = Delay::until_instant("abc", Instant::now());

    assert!(delayed_one_hour.delayed_until() > delayed_now.delayed_until());
}

#[test]
fn correct_value() {
    let delayed_one_hour = Delay::for_duration(123, Duration::from_secs(3600)).unwrap();
    let delayed_now = Delay::until_instant("abc", Instant::now());

    assert_eq!(delayed_one_hour.value, 123);
    assert_eq!(delayed_now.value, "abc");
}

#[test]
fn until_instant_keeps_the_instant() {
    let t = Instant::now();
    let d = Delay::until_instant(7u8, t);
    assert_eq!(d.delayed_until(), t);
    assert_eq!(d.value, 7);
}

#[test]
fn after_adds_the_duration() {
    let start = Instant::now();
    let d = Delay::after("x", start, Duration::from_millis(1500)).unwrap();
    assert_eq!(d.delayed_until() - start, Duration::from_millis(1500));
    assert_eq!(d.value, "x");
}

#[test]
fn after_refuses_an_unrepresentable_deadline() {
    let start = Instant::now();
    assert!(Delay::after(1, start, Duration::MAX).is_none());
}

#[test]
fn for_duration_lies_after_now() {
    let before = Instant::now();
    let d = Delay::for_duration((), Duration::from_secs(10)).unwrap();
    assert!(d.delayed_until() >= before + Duration::from_secs(10));
}

#[test]
fn default_holds_default_value_and_is_due() {
    let before = Instant::now();
    let d: Delay<u32> = Delay::default();
    assert_eq!(d.value, 0);
    assert!(d.delayed_until() >= before);
    assert!(d.delayed_until() <= Instant::now());
}

#[test]
fn delays_are_equal_iff_value_and_instant_are() {
    let t = Instant::now();
    let later = t + Duration::from_secs(1);
    assert_eq!(Delay::until_instant(1, t), Delay::until_instant(1, t));
    assert_ne!(Delay::until_instant(1, t), Delay::until_instant(2, t));
    assert_ne!(Delay::until_instant(1, t), Delay::until_instant(1, later));
}

#[test]
fn value_borrows_the_delayed_value() {
    let d = Delay::until_instant(String::from("abc"), Instant::now());
    assert_eq!(d.value(), "abc");
}
