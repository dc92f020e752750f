//! The per-wait guard: one pending or resolved wait attempt on an [`Event`].

use vstd::prelude::*;
use core::marker::PhantomData;
use crate::event::Event;
use crate::inner::Inner;
use crate::list::{Entry, Pending};
use crate::notify::full_fence;
use crate::state::{RegisterResult, State};
use crate::task::Task;

verus! {

/// A guard waiting for a notification from an [`Event`].
///
/// The guard addresses its slot in the event's registry by key.  It must be
/// used only with the event that created it: every operation requires that
/// the guard's key, where it has one, still addresses a slot of that event's
/// registry, which holds exactly when the guard came from that event and has
/// not yet been removed.
pub struct EventListener<T = ()> {
    /// The key of this guard's slot, or nothing before insertion and after
    /// removal.
    pub key: Option<u64>,
    /// Carries the event's tag type.
    pub _tag: PhantomData<T>,
}

impl<T> EventListener<T> {
    /// Create a guard for the given event, creating the event's shared state
    /// first if need be.  The guard is not yet inserted: it must `listen`
    /// before it can wait or poll.
    pub fn new(event: &mut Event<T>) -> (l: EventListener<T>)
        requires
            old(event).wf(),
        ensures
            final(event).wf(),
            final(event).is_initialized(),
            l.key is None,
            old(event).is_initialized() ==> *final(event) == *old(event),
            !old(event).is_initialized() ==> final(event).listeners()
                =~= Seq::<Entry<T>>::empty() && final(event).pending_ops()
                =~= Seq::<Pending<T>>::empty() && !final(event).is_held() && final(event).logical_len() == 0 && final(event).logical_notified() == 0 && final(event).next_key()
                == 0,
    {
        event.ensure_inner();
        EventListener { key: None, _tag: PhantomData }
    }

    /// Insert this guard into the event's registry, in the `Created` state,
    /// at the logical tail, and emit a full fence so the insertion is
    /// visible before the caller re-checks whatever condition the notifier
    /// reacts to.
    pub fn listen(&mut self, event: &mut Event<T>)
        requires
            old(self).key is None,
            old(event).wf(),
            old(event).is_initialized(),
            old(event).key_space_left(),
        ensures
            final(event).wf(),
            final(event).is_initialized(),
            final(self).key == Some(old(event).next_key()),
            final(event).is_held() == old(event).is_held(),
            final(event).next_key() == old(event).next_key() + 1,
            final(event).logical_len() == old(event).logical_len() + 1,
            final(event).logical_notified() == old(event).logical_notified(),
            final(event).notified_count() == old(event).notified_count(),
            !old(event).is_held() ==> final(event).listeners() == old(event).listeners().push(
                (Entry { key: old(event).next_key(), state: State::<T>::Created }),
            ) && final(event).pending_ops() == old(event).pending_ops(),
            old(event).is_held() ==> final(event).listeners() == old(event).listeners() && final(event).pending_ops() == old(event).pending_ops().push(
                Pending::<T>::Listen(old(event).next_key()),
            ),
    {
        let mut tmp: Option<Inner<T>> = None;
        core::mem::swap(&mut tmp, &mut event.inner);
        let mut inner = match tmp {
            Some(i) => i,
            None => vstd::pervasive::unreached(),
        };
        let k = inner.list.insert();
        inner.refresh();
        event.inner = Some(inner);
        full_fence();
        self.key = Some(k);
    }

    /// Attach (or replace) a wake handle on this guard's slot.  A slot that
    /// already holds an unconsumed notification hands its tag over instead
    /// and is marked consumed.  A guard that was never inserted reports so.
    ///
    /// Re-registering a guard whose tag was already handed over is a
    /// double-consumption contract violation, so that state is excluded.
    pub fn register(&mut self, event: &mut Event<T>, task: Task) -> (r: RegisterResult<T>)
        requires
            old(event).wf(),
            !old(event).is_held(),
            old(self).key matches Some(k) ==> old(event).has_listener(k),
            forall|i: int|
                0 <= i < old(event).listeners().len() && old(self).key == Some(
                    #[trigger] old(event).listeners()[i].key,
                ) ==> !(old(event).listeners()[i].state is NotifiedTaken),
        ensures
            final(self).key == old(self).key,
            final(event).wf(),
            final(event).is_initialized() == old(event).is_initialized(),
            final(event).is_held() == old(event).is_held(),
            final(event).pending_ops() == old(event).pending_ops(),
            final(event).next_key() == old(event).next_key(),
            final(event).logical_len() == old(event).logical_len(),
            final(event).logical_notified() == old(event).logical_notified(),
            final(event).notified_count() == old(event).notified_count(),
            final(event).listeners().len() == old(event).listeners().len(),
            old(self).key is None ==> r is NeverInserted && *final(event) == *old(event),
            forall|i: int|
                0 <= i < old(event).listeners().len() && old(self).key == Some(
                    #[trigger] old(event).listeners()[i].key,
                ) ==> {
                    let s = old(event).listeners();
                    &&& (s[i].state is Created || s[i].state is Task ==> final(event).listeners()
                        == s.update(i, (Entry { key: s[i].key, state: State::Task(task) })) && r
                        is Registered)
                    &&& (s[i].state matches State::Notified { additional: a, tag: t } ==> final(event).listeners() == s.update(
                        i,
                        (Entry { key: s[i].key, state: State::<T>::NotifiedTaken }),
                    ) && r == RegisterResult::<T>::Notified(t))
                },
    {
        let k = match self.key {
            Some(k) => k,
            None => {
                return RegisterResult::NeverInserted;
            },
        };
        let mut tmp: Option<Inner<T>> = None;
        core::mem::swap(&mut tmp, &mut event.inner);
        let mut inner = match tmp {
            Some(i) => i,
            None => vstd::pervasive::unreached(),
        };
        let r = inner.list.register(k, task);
        event.inner = Some(inner);
        r
    }

    /// One poll step: attach the task's wake handle, or hand over the tag if
    /// a notification already arrived.  Never blocks.
    ///
    /// Polling a guard that was never inserted is a contract violation, so
    /// the guard must have a key; so is polling again after the tag was
    /// handed over.
    pub fn poll_internal(&mut self, event: &mut Event<T>, task: Task) -> (r: Option<T>)
        requires
            old(event).wf(),
            !old(event).is_held(),
            old(self).key matches Some(k) && old(event).has_listener(k),
            forall|i: int|
                0 <= i < old(event).listeners().len() && old(self).key == Some(
                    #[trigger] old(event).listeners()[i].key,
                ) ==> !(old(event).listeners()[i].state is NotifiedTaken),
        ensures
            final(self).key == old(self).key,
            final(event).wf(),
            final(event).is_held() == old(event).is_held(),
            final(event).pending_ops() == old(event).pending_ops(),
            final(event).next_key() == old(event).next_key(),
            final(event).logical_len() == old(event).logical_len(),
            final(event).logical_notified() == old(event).logical_notified(),
            final(event).notified_count() == old(event).notified_count(),
            forall|i: int|
                0 <= i < old(event).listeners().len() && old(self).key == Some(
                    #[trigger] old(event).listeners()[i].key,
                ) ==> {
                    let s = old(event).listeners();
                    &&& (s[i].state is Created || s[i].state is Task ==> final(event).listeners()
                        == s.update(i, (Entry { key: s[i].key, state: State::Task(task) })) && r
                        is None)
                    &&& (s[i].state matches State::Notified { additional: a, tag: t } ==> final(event).listeners() == s.update(
                        i,
                        (Entry { key: s[i].key, state: State::<T>::NotifiedTaken }),
                    ) && r == Some(t))
                },
    {
        let r = self.register(event, task);
        proof {
            let s = old(event).listeners();
            let k0 = old(self).key->0;
            let w = choose|i: int| 0 <= i < s.len() && (#[trigger] s[i]).key == k0;
            assert(0 <= w < s.len() && s[w].key == k0);
            assert(!(r is NeverInserted));
        }
        r.notified()
    }

    /// Remove this guard from the registry without consuming its
    /// notification through `wait` or `poll`.  Returns whether a
    /// notification had reached it.  The notification, if any, is dropped:
    /// an explicit discard never re-delivers it to another waiter.
    pub fn discard(&mut self, event: &mut Event<T>) -> (r: bool)
        requires
            old(event).wf(),
            !old(event).is_held(),
            old(self).key matches Some(k) ==> old(event).has_listener(k),
        ensures
            final(self).key is None,
            final(event).wf(),
            final(event).is_held() == old(event).is_held(),
            final(event).pending_ops() == old(event).pending_ops(),
            final(event).next_key() == old(event).next_key(),
            old(self).key is None ==> r == false && *final(event) == *old(event),
            forall|i: int|
                0 <= i < old(event).listeners().len() && old(self).key == Some(
                    #[trigger] old(event).listeners()[i].key,
                ) ==> {
                    let s = old(event).listeners();
                    let c = old(event).notified_count();
                    &&& final(event).listeners() == s.remove(i)
                    &&& r == s[i].state.is_notified_spec()
                    &&& final(event).logical_len() == old(event).logical_len() - 1
                    &&& final(event).notified_count() == (if s[i].state.is_notified_spec() {
                        c - 1
                    } else {
                        c as int
                    })
                },
    {
        let k = match self.key {
            Some(k) => k,
            None => {
                return false;
            },
        };
        self.key = None;
        let mut tmp: Option<Inner<T>> = None;
        core::mem::swap(&mut tmp, &mut event.inner);
        let mut inner = match tmp {
            Some(i) => i,
            None => vstd::pervasive::unreached(),
        };
        let st = inner.list.remove(k, false);
        inner.refresh();
        event.inner = Some(inner);
        proof {
            let s = old(event).listeners();
            let w = choose|i: int| 0 <= i < s.len() && (#[trigger] s[i]).key == k;
            assert(0 <= w < s.len() && s[w].key == k);
        }
        match st {
            Some(state) => state.is_notified(),
            None => false,
        }
    }

    /// Destroy this guard, as dropping it does: remove it from the registry,
    /// and where a notification had reached it without being consumed,
    /// re-deliver that notification — counting mode, tag and wake — to the
    /// earliest unsatisfied waiter, so that cancellation never loses a
    /// delivered notification.
    pub fn cancel(self, event: &mut Event<T>)
        requires
            old(event).wf(),
            !old(event).is_held(),
            self.key matches Some(k) ==> old(event).has_listener(k),
        ensures
            final(event).wf(),
            final(event).is_held() == old(event).is_held(),
            final(event).pending_ops() == old(event).pending_ops(),
            final(event).next_key() == old(event).next_key(),
            self.key is None ==> *final(event) == *old(event),
            forall|i: int|
                0 <= i < old(event).listeners().len() && self.key == Some(
                    #[trigger] old(event).listeners()[i].key,
                ) ==> {
                    let s = old(event).listeners();
                    let c = old(event).notified_count();
                    &&& final(event).logical_len() == old(event).logical_len() - 1
                    &&& (!(s[i].state is Notified) ==> final(event).listeners() == s.remove(i)
                        && final(event).notified_count() == (if s[i].state.is_notified_spec() {
                        c - 1
                    } else {
                        c as int
                    }))
                    &&& (s[i].state matches State::Notified { additional: a, tag: t } ==> (if c
                        < s.len() {
                        &&& final(event).listeners() == s.remove(i).update(
                            c - 1,
                            (Entry {
                                key: s[c as int].key,
                                state: State::Notified { additional: a, tag: t },
                            }),
                        )
                        &&& final(event).notified_count() == c
                    } else {
                        &&& final(event).listeners() == s.remove(i)
                        &&& final(event).notified_count() == c - 1
                    }))
                },
    {
        let k = match self.key {
            Some(k) => k,
            None => {
                return ;
            },
        };
        let mut tmp: Option<Inner<T>> = None;
        core::mem::swap(&mut tmp, &mut event.inner);
        let mut inner = match tmp {
            Some(i) => i,
            None => vstd::pervasive::unreached(),
        };
        let _st = inner.list.remove(k, true);
        inner.refresh();
        event.inner = Some(inner);
        proof {
            let s = old(event).listeners();
            let w = choose|i: int| 0 <= i < s.len() && (#[trigger] s[i]).key == k;
            assert(0 <= w < s.len() && s[w].key == k);
        }
    }

    /// The timeout arm of a blocking wait: remove this guard from the
    /// registry and hand back its tag where a notification had slipped in
    /// exactly at the boundary, or nothing on a plain timeout.  Later
    /// notify calls no longer see this guard.
    pub fn wait_timed_out(self, event: &mut Event<T>) -> (r: Option<T>)
        requires
            old(event).wf(),
            !old(event).is_held(),
            self.key matches Some(k) && old(event).has_listener(k),
            forall|i: int|
                0 <= i < old(event).listeners().len() && self.key == Some(
                    #[trigger] old(event).listeners()[i].key,
                ) ==> !(old(event).listeners()[i].state is NotifiedTaken),
        ensures
            final(event).wf(),
            final(event).is_held() == old(event).is_held(),
            final(event).pending_ops() == old(event).pending_ops(),
            final(event).next_key() == old(event).next_key(),
            forall|i: int|
                0 <= i < old(event).listeners().len() && self.key == Some(
                    #[trigger] old(event).listeners()[i].key,
                ) ==> {
                    let s = old(event).listeners();
                    &&& final(event).listeners() == s.remove(i)
                    &&& final(event).logical_len() == old(event).logical_len() - 1
                    &&& (s[i].state matches State::Notified { tag: t, .. } ==> r == Some(t))
                    &&& (!(s[i].state is Notified) ==> r is None)
                },
    {
        let k = match self.key {
            Some(k) => k,
            None => vstd::pervasive::unreached(),
        };
        let mut tmp: Option<Inner<T>> = None;
        core::mem::swap(&mut tmp, &mut event.inner);
        let mut inner = match tmp {
            Some(i) => i,
            None => vstd::pervasive::unreached(),
        };
        let st = inner.list.remove(k, false);
        inner.refresh();
        event.inner = Some(inner);
        proof {
            let s = old(event).listeners();
            let w = choose|i: int| 0 <= i < s.len() && (#[trigger] s[i]).key == k;
            assert(0 <= w < s.len() && s[w].key == k);
        }
        match st {
            Some(state) => state.notified(),
            None => None,
        }
    }
}

impl<T> Event<T> {
    /// Create a guard listening for a notification: the shared state is
    /// created if this is the handle's first use, and the guard joins the
    /// registry at the logical tail in the `Created` state, followed by a
    /// full fence.
    pub fn listen(&mut self) -> (l: EventListener<T>)
        requires
            old(self).wf(),
            old(self).key_space_left(),
        ensures
            final(self).wf(),
            final(self).is_initialized(),
            final(self).is_held() == old(self).is_held(),
            final(self).logical_notified() == old(self).logical_notified(),
            final(self).notified_count() == old(self).notified_count(),
            old(self).is_initialized() ==> l.key == Some(old(self).next_key()) && final(self).next_key() == old(self).next_key() + 1 && final(self).logical_len() == old(self).logical_len() + 1,
            old(self).is_initialized() && !old(self).is_held() ==> final(self).listeners() == old(self).listeners().push((Entry { key: old(self).next_key(), state: State::<T>::Created }))
                && final(self).pending_ops() == old(self).pending_ops(),
            old(self).is_initialized() && old(self).is_held() ==> final(self).listeners() == old(self).listeners() && final(self).pending_ops() == old(self).pending_ops().push(
                Pending::<T>::Listen(old(self).next_key()),
            ),
            !old(self).is_initialized() ==> l.key == Some(0u64) && !final(self).is_held() && final(self).listeners() =~= seq![(Entry { key: 0u64, state: State::<T>::Created })] && final(self).pending_ops() =~= Seq::<Pending<T>>::empty() && final(self).logical_len() == 1
                && final(self).next_key() == 1,
    {
        let mut l = EventListener::new(self);
        l.listen(self);
        l
    }
}

} // verus!
