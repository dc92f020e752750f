//! Tests involving the backup queue used under heavy contention.

use event_listener::{Event, EventListener, Task};
use waker_fn::waker_fn;

fn is_notified(listener: &mut EventListener, event: &mut Event) -> bool {
    let waker = waker_fn(|| ());
    listener.poll_internal(event, Task::Waker(waker)).is_some()
}

#[test]
fn insert_and_notify() {
    let mut event = Event::new();

    // Lock to simulate contention.
    let locked = event.lock_event();
    assert!(locked);

    let mut l1 = event.listen();
    let mut l2 = event.listen();
    let mut l3 = event.listen();

    assert!(!is_notified(&mut l1, &mut event));
    assert!(!is_notified(&mut l2, &mut event));
    assert!(!is_notified(&mut l3, &mut event));

    event.notify(2);
    event.notify(1);

    // Unlock to simulate contention being released.
    event.unlock_event();

    assert!(is_notified(&mut l1, &mut event));
    assert!(is_notified(&mut l2, &mut event));
    assert!(!is_notified(&mut l3, &mut event));
}

#[test]
fn queued_notify_additional_is_cumulative() {
    let mut event = Event::new();
    let locked = event.lock_event();
    assert!(locked);

    let mut l1 = event.listen();
    let mut l2 = event.listen();
    let mut l3 = event.listen();

    event.notify_additional(1);
    event.notify_additional(1);

    event.unlock_event();

    assert!(is_notified(&mut l1, &mut event));
    assert!(is_notified(&mut l2, &mut event));
    assert!(!is_notified(&mut l3, &mut event));
}

#[test]
fn lock_event_reports_contention() {
    let mut event = Event::new();
    assert!(event.lock_event());
    assert!(!event.lock_event());
    event.unlock_event();
    assert!(event.lock_event());
    event.unlock_event();
}

#[test]
fn queued_notify_without_listeners_is_lost() {
    let mut event = Event::new();
    let locked = event.lock_event();
    assert!(locked);

    // Nobody listens yet, so this has nothing to do even while held.
    event.notify(1);

    event.unlock_event();

    let mut l1 = event.listen();
    assert!(!is_notified(&mut l1, &mut event));
}
