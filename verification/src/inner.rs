//! The state behind one event: the waiter registry plus a cached saturating
//! count of notified waiters.

use vstd::prelude::*;
use crate::list::List;

verus! {

/// The registry together with a cheap-to-read summary of it.
pub struct Inner<T> {
    /// The number of logically notified waiters, or `usize::MAX` when every
    /// waiter — or none at all — is notified.  A notify call reads this
    /// first and returns without touching the registry when it has nothing
    /// to do.
    pub notified: usize,
    /// The waiter registry.
    pub list: List<T>,
}

impl<T> Inner<T> {
    /// The value the cached count must hold for a registry in the given
    /// logical state.
    pub open spec fn sentinel_for(ln: nat, ll: nat) -> nat {
        if ln == ll {
            usize::MAX as nat
        } else {
            ln
        }
    }

    /// The cache agrees with the registry it summarises.
    pub open spec fn wf(&self) -> bool {
        &&& self.list.wf()
        &&& self.notified as nat == Self::sentinel_for(
            self.list.logical_notified_spec(),
            self.list.logical_len_spec(),
        )
    }

    /// Fresh state: an empty registry, whose cache is the all-notified
    /// sentinel, so that notifying an event nobody listens to does no work.
    pub fn new() -> (inner: Inner<T>)
        ensures
            inner.wf(),
            inner.notified == usize::MAX,
            inner.list.entries_seq() =~= Seq::<crate::list::Entry<T>>::empty(),
            inner.list.pending_seq() =~= Seq::<crate::list::Pending<T>>::empty(),
            !inner.list.is_held(),
            inner.list.next_key_spec() == 0,
            inner.list.logical_len_spec() == 0,
            inner.list.logical_notified_spec() == 0,
    {
        Inner { notified: usize::MAX, list: List::new() }
    }

    /// Recompute the cached count from the registry's logical counters.
    pub fn refresh(&mut self)
        requires
            old(self).list.wf(),
        ensures
            final(self).wf(),
            final(self).list == old(self).list,
    {
        if self.list.logical_notified == self.list.logical_len {
            self.notified = usize::MAX;
        } else {
            self.notified = self.list.logical_notified;
        }
    }
}

} // verus!
