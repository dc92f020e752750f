//! Behaviour of the notify operations on an uncontended event.

use event_listener::{Event, EventListener, IntoNotification, Task};
use waker_fn::waker_fn;

fn is_notified(listener: &mut EventListener, event: &mut Event) -> bool {
    let waker = waker_fn(|| ());
    listener.poll_internal(event, Task::Waker(waker)).is_some()
}

#[test]
fn notify_without_listeners_is_lost() {
    let mut event = Event::new();

    // Nobody listens, so these are pure no-ops.
    event.notify(1);
    event.notify(usize::MAX);
    event.notify_relaxed(3);
    event.notify_additional(2);
    event.notify_additional_relaxed(2);

    // A listener created afterwards sees nothing of them.
    let mut l1 = event.listen();
    assert!(!is_notified(&mut l1, &mut event));
}

#[test]
fn fifo_fairness() {
    let mut event = Event::new();
    let mut l1 = event.listen();
    let mut l2 = event.listen();
    let mut l3 = event.listen();

    event.notify(2);
    // The second call's limit is already below the running count.
    event.notify(1);

    assert!(is_notified(&mut l1, &mut event));
    assert!(is_notified(&mut l2, &mut event));
    assert!(!is_notified(&mut l3, &mut event));
}

#[test]
fn renotify_below_limit_is_idempotent() {
    let mut event = Event::new();
    let mut l1 = event.listen();
    let mut l2 = event.listen();
    let mut l3 = event.listen();

    event.notify(2);
    event.notify(2);
    event.notify(1);
    event.notify(2);

    assert!(is_notified(&mut l1, &mut event));
    assert!(is_notified(&mut l2, &mut event));
    assert!(!is_notified(&mut l3, &mut event));
}

#[test]
fn additional_is_cumulative_not_overlapping() {
    let mut event = Event::new();
    let mut l1 = event.listen();
    let mut l2 = event.listen();
    let mut l3 = event.listen();

    event.notify(1usize.into_notification().additional());
    event.notify(1usize.into_notification().additional());

    assert!(is_notified(&mut l1, &mut event));
    assert!(is_notified(&mut l2, &mut event));
    assert!(!is_notified(&mut l3, &mut event));

    let mut event2 = Event::new();
    let mut m1 = event2.listen();
    let mut m2 = event2.listen();
    let mut m3 = event2.listen();
    event2.notify_additional(1);
    event2.notify_additional(1);
    event2.notify_additional(1);
    assert!(is_notified(&mut m1, &mut event2));
    assert!(is_notified(&mut m2, &mut event2));
    assert!(is_notified(&mut m3, &mut event2));
}

#[test]
fn relaxed_notify_behaves_like_notify() {
    let mut event = Event::new();
    let mut l1 = event.listen();
    let mut l2 = event.listen();

    event.notify_relaxed(1);
    assert!(is_notified(&mut l1, &mut event));
    assert!(!is_notified(&mut l2, &mut event));

    event.notify_additional_relaxed(1);
    assert!(is_notified(&mut l2, &mut event));
}

#[test]
fn notify_count_may_exceed_listeners() {
    let mut event = Event::new();
    let mut l1 = event.listen();
    event.notify(100);
    assert!(is_notified(&mut l1, &mut event));
    // Nothing is owed to a listener created after the call.
    let mut l2 = event.listen();
    assert!(!is_notified(&mut l2, &mut event));
}

#[test]
fn notify_zero_notifies_nobody() {
    let mut event = Event::new();
    let mut l1 = event.listen();
    event.notify(0);
    assert!(!is_notified(&mut l1, &mut event));
}

#[test]
fn default_handle_behaves_like_new() {
    let mut event: Event = Default::default();
    assert!(event.can_listen());
    let mut l1 = event.listen();
    event.notify(1);
    assert!(is_notified(&mut l1, &mut event));
}
