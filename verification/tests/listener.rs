//! The guard's state machine: discard, cancellation cascade, timeout, tags.

use event_listener::{Event, EventListener, IntoNotification, Notify, RegisterResult, Task};
use waker_fn::waker_fn;

fn task() -> Task {
    Task::Waker(waker_fn(|| ()))
}

fn is_notified(listener: &mut EventListener, event: &mut Event) -> bool {
    listener.poll_internal(event, task()).is_some()
}

#[test]
fn discard_consumes_without_cascading() {
    let mut event = Event::new();
    let mut l1 = event.listen();
    let mut l2 = event.listen();

    event.notify(1);

    assert!(l1.discard(&mut event));
    assert!(!l2.discard(&mut event));
}

#[test]
fn cascade_on_drop() {
    let mut event = Event::new();
    let l1 = event.listen();
    let mut l2 = event.listen();

    event.notify(1);

    // Dropping the satisfied listener re-delivers its notification.
    l1.cancel(&mut event);

    assert!(is_notified(&mut l2, &mut event));
}

#[test]
fn drop_without_notification_does_not_cascade() {
    let mut event = Event::new();
    let l1 = event.listen();
    let mut l2 = event.listen();

    l1.cancel(&mut event);

    assert!(!is_notified(&mut l2, &mut event));
}

#[test]
fn timeout_removes_the_node() {
    let mut event = Event::new();
    let mut l1 = event.listen();
    let mut l2 = event.listen();

    // Both start waiting.
    assert!(l1.register(&mut event, task()).notified().is_none());
    assert!(l2.register(&mut event, task()).notified().is_none());

    // The first gives up: no notification, and the node leaves the registry.
    assert!(l1.wait_timed_out(&mut event).is_none());

    // A later notify therefore reaches the second listener.
    event.notify(1);
    assert!(is_notified(&mut l2, &mut event));
}

#[test]
fn timeout_boundary_race_still_returns_the_tag() {
    let mut event = Event::new();
    let l1 = event.listen();
    event.notify(1);
    // The deadline passed, but a notification had already arrived.
    assert_eq!(l1.wait_timed_out(&mut event), Some(()));
}

#[test]
fn tags_are_delivered_in_order() {
    let mut event: Event<i32> = Event::with_tag();
    let mut l1 = event.listen();
    let mut l2 = event.listen();

    event.notify(1.into_notification().tag(7));
    event.notify(1.into_notification().tag(8).additional());

    assert_eq!(l1.poll_internal(&mut event, task()), Some(7));
    assert_eq!(l2.poll_internal(&mut event, task()), Some(8));
}

#[test]
fn cascade_re_delivers_the_same_tag() {
    let mut event: Event<i32> = Event::with_tag();
    let l1 = event.listen();
    let mut l2 = event.listen();

    event.notify(1.into_notification().tag(42));
    l1.cancel(&mut event);

    assert_eq!(l2.poll_internal(&mut event, task()), Some(42));
}

#[test]
fn register_before_listen_reports_never_inserted() {
    let mut event = Event::new();
    let mut l1 = EventListener::new(&mut event);
    assert!(matches!(l1.register(&mut event, task()), RegisterResult::NeverInserted));
}

#[test]
fn register_result_notified() {
    assert_eq!(RegisterResult::Notified(5).notified(), Some(5));
    assert_eq!(RegisterResult::<i32>::Registered.notified(), None);
}

#[test]
fn notification_builders_compose() {
    let a = 3.into_notification().additional().relaxed();
    let b = 3.into_notification().relaxed().additional();
    assert_eq!(a.count, b.count);
    assert_eq!(a.additional, b.additional);
    assert_eq!(a.relaxed, b.relaxed);

    let c: Notify<i32> = 2.into_notification().tag(9);
    assert_eq!(c.count, 2);
    assert!(!c.additional);
    assert!(!c.relaxed);
    assert_eq!(c.tag, 9);
}

#[test]
fn unparker_wake_handle() {
    let mut event = Event::new();
    let mut l1 = event.listen();
    let (parker, unparker) = parking::pair();
    assert!(l1
        .register(&mut event, Task::Unparker(unparker.clone()))
        .notified()
        .is_none());
    event.notify(1);
    // The promotion unparked the thread: a park call returns at once.
    parker.park();
    assert_eq!(l1.poll_internal(&mut event, task()), Some(()));
}
