use delay_queue::{Delay, DelayQueue, Delayed, Entry, PopStep};
use std::cmp::Ordering;
use std::time::{Duration, Instant};

/// Takes the next item out of `queue`, polling the clock until it is due.
fn pop_when_due<T: Delayed>(queue: &mut DelayQueue<T>) -> T {
    loop {
        match queue.poll() {
            PopStep::Ready { item, .. } => return item,
            PopStep::Wait { .. } => std::hint::spin_loop(),
            PopStep::Empty => panic!("popped an empty queue"),
        }
    }
}

#[test]
fn entry_comparisons() {
    let delayed_one_hour =
        Entry::new(Delay::for_duration("abc", Duration::from_secs(3600)).unwrap());
    let delayed_now = Entry::new(Delay::for_duration("def", Duration::from_secs(0)).unwrap());

    assert_eq!(delayed_now, delayed_now);
    assert_ne!(delayed_now, delayed_one_hour);

    assert!(delayed_now > delayed_one_hour);
    assert!(delayed_one_hour < delayed_now);
    assert!(delayed_one_hour <= delayed_one_hour);
}

#[test]
fn is_empty() {
    let mut queue = DelayQueue::new();

    assert!(queue.is_empty());

    queue.push(Delay::until_instant("1st", Instant::now()));

    assert!(!queue.is_empty());
    assert_eq!(pop_when_due(&mut queue).value, "1st");
    assert!(queue.is_empty());
}

#[test]
fn push_pop_single_thread() {
    let mut queue = DelayQueue::new();

    let delay1 = Delay::until_instant("1st", Instant::now());
    let delay2 = Delay::for_duration("2nd", Duration::from_millis(20)).unwrap();
    let delay3 = Delay::for_duration("3rd", Duration::from_millis(30)).unwrap();
    let delay4 = Delay::for_duration("4th", Duration::from_millis(40)).unwrap();

    queue.push(delay2);
    queue.push(delay4);
    queue.push(delay1);

    assert_eq!(pop_when_due(&mut queue).value, "1st");
    assert_eq!(pop_when_due(&mut queue).value, "2nd");

    queue.push(delay3);

    assert_eq!(pop_when_due(&mut queue).value, "3rd");
    assert_eq!(pop_when_due(&mut queue).value, "4th");

    assert!(queue.is_empty());
}

#[test]
fn entry_cmp_orders_earlier_first() {
    let t = Instant::now();
    let early = Entry::new(Delay::until_instant(1, t));
    let late = Entry::new(Delay::until_instant(2, t + Duration::from_millis(5)));
    let same = Entry::new(Delay::until_instant(3, t));
    assert_eq!(early.cmp(&late), Ordering::Greater);
    assert_eq!(late.cmp(&early), Ordering::Less);
    assert_eq!(early.cmp(&same), Ordering::Equal);
    assert_eq!(early.partial_cmp(&late), Some(Ordering::Greater));
    assert_eq!(early.into_inner().value, 1);
    assert_eq!(late.get().value, 2);
}

#[test]
fn pop_on_empty_queue_says_empty() {
    let mut queue: DelayQueue<Delay<u8>> = DelayQueue::new();
    assert!(matches!(queue.pop(Instant::now()), PopStep::Empty));
    assert!(queue.is_empty());
}

#[test]
fn pop_before_deadline_says_how_long_to_wait() {
    let mut queue = DelayQueue::new();
    let now = Instant::now();
    queue.push(Delay::until_instant("later", now + Duration::from_millis(1500)));
    match queue.pop(now) {
        PopStep::Wait { nanos } => assert_eq!(nanos, 1_500_000_000),
        _ => panic!("the head is not due yet"),
    }
    assert!(!queue.is_empty());
    match queue.pop(now + Duration::from_millis(1500)) {
        PopStep::Ready { item, more } => {
            assert_eq!(item.value, "later");
            assert!(!more);
        }
        _ => panic!("the head is due"),
    }
    assert!(queue.is_empty());
}

#[test]
fn pop_takes_due_items_earliest_first() {
    let mut queue = DelayQueue::new();
    let t = Instant::now();
    queue.push(Delay::until_instant("c", t + Duration::from_millis(3)));
    queue.push(Delay::until_instant("a", t + Duration::from_millis(1)));
    queue.push(Delay::until_instant("b", t + Duration::from_millis(2)));
    let late = t + Duration::from_secs(1);
    let mut seen = Vec::new();
    loop {
        match queue.pop(late) {
            PopStep::Ready { item, more } => {
                seen.push(item.value);
                assert_eq!(more, seen.len() < 3);
            }
            PopStep::Empty => break,
            PopStep::Wait { .. } => panic!("everything is due"),
        }
    }
    assert_eq!(seen, vec!["a", "b", "c"]);
}

#[test]
fn equal_deadlines_leave_in_arrival_order() {
    let mut queue = DelayQueue::new();
    let t = Instant::now();
    queue.push(Delay::until_instant(1, t));
    queue.push(Delay::until_instant(2, t));
    queue.push(Delay::until_instant(3, t));
    let mut seen = Vec::new();
    while let PopStep::Ready { item, .. } = queue.pop(t) {
        seen.push(item.value);
    }
    assert_eq!(seen, vec![1, 2, 3]);
}

#[test]
fn push_reports_a_new_head() {
    let mut queue = DelayQueue::new();
    let t = Instant::now();
    assert!(queue.push(Delay::until_instant("b", t + Duration::from_millis(20))));
    assert!(!queue.push(Delay::until_instant("c", t + Duration::from_millis(30))));
    assert!(!queue.push(Delay::until_instant("b2", t + Duration::from_millis(20))));
    assert!(queue.push(Delay::until_instant("a", t + Duration::from_millis(10))));
}

#[test]
fn items_before_the_queue_was_made_come_first() {
    let past = Instant::now();
    let mut queue = DelayQueue::new();
    let present = Instant::now() + Duration::from_millis(1);
    queue.push(Delay::until_instant("present", present));
    assert!(queue.push(Delay::until_instant("past", past)));
    match queue.pop(past) {
        PopStep::Ready { item, more } => {
            assert_eq!(item.value, "past");
            assert!(more);
        }
        _ => panic!("the past item is due"),
    }
}

#[test]
fn push_then_pop_gives_the_item_back() {
    let mut queue = DelayQueue::new();
    let t = Instant::now();
    queue.push(Delay::until_instant(42, t));
    match queue.pop(t) {
        PopStep::Ready { item, more } => {
            assert_eq!(item.value, 42);
            assert!(!more);
        }
        _ => panic!("the item is due"),
    }
    assert!(queue.is_empty());
}

#[test]
fn entries_with_the_same_instant_are_equal_whatever_they_hold() {
    let t = Instant::now();
    let a = Entry::new(Delay::until_instant(1, t));
    let b = Entry::new(Delay::until_instant(2, t));
    let c = Entry::new(Delay::until_instant(1, t + Duration::from_nanos(1)));
    assert!(a == b);
    assert!(a != c);
    assert_eq!(a.cmp(&c), c.cmp(&a).reverse());
    assert_eq!(a.cmp(&a), Ordering::Equal);
}

#[test]
fn entry_priorities_chain() {
    let t = Instant::now();
    let a = Entry::new(Delay::until_instant(1, t));
    let b = Entry::new(Delay::until_instant(2, t + Duration::from_millis(1)));
    let c = Entry::new(Delay::until_instant(3, t + Duration::from_millis(2)));
    assert_eq!(a.cmp(&b), Ordering::Greater);
    assert_eq!(b.cmp(&c), Ordering::Greater);
    assert_eq!(a.cmp(&c), Ordering::Greater);
}
