use des_kernel::time::Time;
use des_kernel::timeline_event::Event;
use std::cmp::Ordering;

fn at(value: f64) -> Time {
    Time::from_bits(value.to_bits())
}

#[test]
fn new_event_holds_its_parts() {
    let event = Event::new(at(2.5), "wake");
    assert_eq!(event.time, at(2.5));
    assert_eq!(event.command, "wake");
}

#[test]
fn events_are_equal_when_their_times_are() {
    assert!(Event::new(at(1.0), "a") == Event::new(at(1.0), "b"));
    assert!(Event::new(at(1.0), "a") != Event::new(at(2.0), "a"));
    assert!(Event::new(at(0.0), 1) == Event::new(at(-0.0), 2));
}

#[test]
fn the_sooner_event_is_the_greater() {
    let sooner = Event::new(at(1.0), 0u8);
    let later = Event::new(at(3.0), 0u8);
    assert_eq!(sooner.cmp(&later), Ordering::Greater);
    assert_eq!(later.cmp(&sooner), Ordering::Less);
    assert_eq!(sooner.cmp(&sooner), Ordering::Equal);
    assert_eq!(sooner.partial_cmp(&later), Some(Ordering::Greater));
    assert_eq!(later.partial_cmp(&sooner), Some(Ordering::Less));
    assert!(sooner > later);
    assert!(later < sooner);
    assert!(sooner >= sooner);
}

#[test]
fn events_of_equal_time_compare_equal_whatever_they_carry() {
    let a = Event::new(at(4.0), 1u8);
    let b = Event::new(at(4.0), 2u8);
    assert_eq!(a.cmp(&b), Ordering::Equal);
    assert_eq!(a.partial_cmp(&b), Some(Ordering::Equal));
    assert!(!(a < b));
    assert!(!(a > b));
}
