//! The configuration value that describes a single notify call.

use vstd::prelude::*;

verus! {

/// A description of one notification: how many waiters to satisfy, whether the
/// count is measured against previously unsatisfied waiters only
/// (`additional`), whether the automatic full memory fence is suppressed
/// (`relaxed`), and the tag value delivered to each satisfied waiter.
pub struct Notify<T> {
    /// How many waiters this notification is meant to satisfy.
    pub count: usize,
    /// When true, `count` means "this many more, beyond whatever was already
    /// notified"; when false, it is a cumulative target.
    pub additional: bool,
    /// When true, the automatic sequentially consistent fence is suppressed
    /// and the caller supplies its own ordering.
    pub relaxed: bool,
    /// The value delivered to each waiter this notification satisfies.
    pub tag: T,
}

/// Conversion into a [`Notify`] configuration, so that a plain count may be
/// passed where a full configuration is accepted.
pub trait IntoNotification<T>: Sized {
    /// The configuration this value stands for.
    spec fn notification(self) -> Notify<T>;

    /// Turn this value into its configuration.
    fn into_notification(self) -> (n: Notify<T>)
        ensures
            n == self.notification(),
    ;
}

impl IntoNotification<()> for usize {
    open spec fn notification(self) -> Notify<()> {
        Notify { count: self, additional: false, relaxed: false, tag: () }
    }

    fn into_notification(self) -> (n: Notify<()>) {
        Notify { count: self, additional: false, relaxed: false, tag: () }
    }
}

impl<T> IntoNotification<T> for Notify<T> {
    open spec fn notification(self) -> Notify<T> {
        self
    }

    fn into_notification(self) -> (n: Notify<T>) {
        self
    }
}

impl<T> Notify<T> {
    /// Switch counting to "this many more, beyond whatever was already
    /// notified".
    pub fn additional(self) -> (n: Notify<T>)
        ensures
            n.count == self.count,
            n.additional,
            n.relaxed == self.relaxed,
            n.tag == self.tag,
    {
        Notify { count: self.count, additional: true, relaxed: self.relaxed, tag: self.tag }
    }

    /// Suppress the automatic full fence; the caller accepts responsibility
    /// for memory ordering.
    pub fn relaxed(self) -> (n: Notify<T>)
        ensures
            n.count == self.count,
            n.additional == self.additional,
            n.relaxed,
            n.tag == self.tag,
    {
        Notify { count: self.count, additional: self.additional, relaxed: true, tag: self.tag }
    }
}

impl Notify<()> {
    /// Replace the default unit tag with a caller-defined value.
    pub fn tag<U>(self, tag: U) -> (n: Notify<U>)
        ensures
            n.count == self.count,
            n.additional == self.additional,
            n.relaxed == self.relaxed,
            n.tag == tag,
    {
        Notify { count: self.count, additional: self.additional, relaxed: self.relaxed, tag }
    }
}

/// Relies on `core::sync::atomic::fence` with sequentially consistent
/// ordering: a full memory barrier, with no effect on any value.
#[verifier::external_body]
pub(crate) fn full_fence() {
    core::sync::atomic::fence(core::sync::atomic::Ordering::SeqCst);
}

} // verus!
