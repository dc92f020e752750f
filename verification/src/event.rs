//! The user-facing signaling handle.

use vstd::prelude::*;
use crate::inner::Inner;
use crate::list::{
    count_true, drain_rel, flags_of, lemma_entries_count, lemma_notify_skip,
    lemma_prefix_characterize, notify_rel, promote_target, Entry, Pending,
};
use crate::notify::{full_fence, IntoNotification, Notify};

verus! {

/// A synchronization primitive for notifying waiting threads and tasks.
///
/// Listeners are registered with [`Event::listen`] and satisfied in the
/// order they registered.  The shared state behind the handle is created
/// lazily: notifying a handle nobody has ever listened to touches nothing.
pub struct Event<T = ()> {
    /// The lazily created shared state; empty until the first listener or
    /// the first hold on the registry.
    pub inner: Option<Inner<T>>,
}

/// Whether a notify call with the given count and mode has nothing to do on
/// a registry with `ln` of `ll` logical waiters notified: the cached
/// saturating count has already met the call's limit.
pub open spec fn skip_notify(ln: nat, ll: nat, count: nat, additional: bool) -> bool {
    let sentinel = Inner::<()>::sentinel_for(ln, ll);
    let limit = if additional {
        usize::MAX as nat
    } else {
        count
    };
    sentinel >= limit
}

/// What one notify call with configuration `n` does to a handle: nothing at
/// all on a handle that was never used; otherwise the logical notified count
/// moves to the call's target, the slots from the old notified boundary up
/// to that target are promoted — or, while the registry is held, the call is
/// parked in the fallback queue — and a call whose limit was already met
/// changes nothing.
pub open spec fn notify_effect<T: Clone>(pre: Event<T>, post: Event<T>, n: Notify<T>) -> bool {
    &&& post.wf()
    &&& (!pre.is_initialized() ==> post == pre)
    &&& post.is_initialized() == pre.is_initialized()
    &&& post.is_held() == pre.is_held()
    &&& post.logical_len() == pre.logical_len()
    &&& post.next_key() == pre.next_key()
    &&& (pre.is_initialized() ==> post.logical_notified() == promote_target(
        pre.logical_notified(),
        n.count as nat,
        n.additional,
        pre.logical_len(),
    ))
    &&& (pre.is_initialized() && !pre.is_held() ==> notify_rel(
        pre.listeners(),
        n.count as nat,
        n.additional,
        n.tag,
        post.listeners(),
    ) && post.pending_ops() == pre.pending_ops())
    &&& (pre.is_initialized() && pre.is_held() ==> post.listeners() == pre.listeners() && (if
    skip_notify(pre.logical_notified(), pre.logical_len(), n.count as nat, n.additional) {
        post == pre
    } else {
        post.pending_ops() == pre.pending_ops().push(
            (Pending::Notify { count: n.count, additional: n.additional, tag: n.tag }),
        )
    }))
}

impl<T> Event<T> {
    /// The handle's shared state, where it exists, is well formed.
    pub open spec fn wf(&self) -> bool {
        self.inner matches Some(i) ==> i.wf()
    }

    /// Whether the shared state has been created.
    pub open spec fn is_initialized(&self) -> bool {
        self.inner is Some
    }

    /// The slots of the registry's primary store, in insertion order.
    pub open spec fn listeners(&self) -> Seq<Entry<T>> {
        match self.inner {
            Some(i) => i.list.entries_seq(),
            None => Seq::<Entry<T>>::empty(),
        }
    }

    /// The operations parked in the registry's fallback queue.
    pub open spec fn pending_ops(&self) -> Seq<Pending<T>> {
        match self.inner {
            Some(i) => i.list.pending_seq(),
            None => Seq::<Pending<T>>::empty(),
        }
    }

    /// Whether the registry's primary store is held.
    pub open spec fn is_held(&self) -> bool {
        match self.inner {
            Some(i) => i.list.is_held(),
            None => false,
        }
    }

    /// How many slots of the primary store are notified.
    pub open spec fn notified_count(&self) -> nat {
        match self.inner {
            Some(i) => i.list.notified_count(),
            None => 0,
        }
    }

    /// How many waiters the registry holds once its queue is drained.
    pub open spec fn logical_len(&self) -> nat {
        match self.inner {
            Some(i) => i.list.logical_len_spec(),
            None => 0,
        }
    }

    /// How many waiters are notified once the queue is drained.
    pub open spec fn logical_notified(&self) -> nat {
        match self.inner {
            Some(i) => i.list.logical_notified_spec(),
            None => 0,
        }
    }

    /// The key the next listener will receive.
    pub open spec fn next_key(&self) -> u64 {
        match self.inner {
            Some(i) => i.list.next_key_spec(),
            None => 0,
        }
    }

    /// Whether a listener with key `k` currently occupies a slot of the
    /// primary store.
    pub open spec fn has_listener(&self, k: u64) -> bool {
        exists|i: int|
            0 <= i < self.listeners().len() && (#[trigger] self.listeners()[i]).key == k
    }

    /// Room for one more listener: the key space and the registry's length
    /// are below their machine limits.
    pub open spec fn key_space_left(&self) -> bool {
        match self.inner {
            Some(i) => i.list.next_key_spec() < u64::MAX && i.list.logical_len_spec()
                < usize::MAX,
            None => true,
        }
    }

    /// Whether one more listener fits: the key space and the registry's
    /// length are below their machine limits.  In practice this always
    /// holds, but it lets a caller test `listen`'s precondition.
    pub fn can_listen(&self) -> (r: bool)
        ensures
            r == self.key_space_left(),
    {
        match &self.inner {
            None => true,
            Some(i) => i.list.next_key < u64::MAX && i.list.logical_len < usize::MAX,
        }
    }

    /// A new handle with a tag type.  No shared state is allocated yet.
    pub fn with_tag() -> (e: Self)
        ensures
            e.wf(),
            !e.is_initialized(),
    {
        Event { inner: None }
    }

    /// Create the shared state if this handle has none yet.
    pub(crate) fn ensure_inner(&mut self)
        requires
            old(self).wf(),
        ensures
            final(self).wf(),
            final(self).is_initialized(),
            old(self).is_initialized() ==> *final(self) == *old(self),
            !old(self).is_initialized() ==> final(self).listeners()
                =~= Seq::<Entry<T>>::empty() && final(self).pending_ops()
                =~= Seq::<Pending<T>>::empty() && !final(self).is_held() && final(self).logical_len() == 0 && final(self).logical_notified() == 0 && final(self).next_key()
                == 0,
    {
        if self.inner.is_none() {
            self.inner = Some(Inner::new());
        }
    }

    /// Take hold of the registry's primary store, creating the shared state
    /// first if need be.  Returns whether the store was free.  While it is
    /// held, insertions and notifications divert to the fallback queue.
    pub fn lock_event(&mut self) -> (r: bool)
        requires
            old(self).wf(),
        ensures
            final(self).wf(),
            final(self).is_initialized(),
            final(self).is_held(),
            r == !old(self).is_held(),
            old(self).is_initialized() ==> final(self).listeners() == old(self).listeners()
                && final(self).pending_ops() == old(self).pending_ops() && final(self).logical_len() == old(self).logical_len() && final(self).logical_notified() == old(self).logical_notified() && final(self).notified_count() == old(self).notified_count()
                && final(self).next_key() == old(self).next_key(),
            !old(self).is_initialized() ==> final(self).listeners()
                =~= Seq::<Entry<T>>::empty() && final(self).pending_ops()
                =~= Seq::<Pending<T>>::empty() && final(self).logical_len() == 0 && final(self).logical_notified() == 0 && final(self).next_key() == 0,
    {
        self.ensure_inner();
        let mut tmp: Option<Inner<T>> = None;
        core::mem::swap(&mut tmp, &mut self.inner);
        let mut inner = match tmp {
            Some(i) => i,
            None => vstd::pervasive::unreached(),
        };
        let r = inner.list.lock();
        self.inner = Some(inner);
        r
    }
}

impl Event<()> {
    /// A new untagged handle.  No shared state is allocated yet.
    pub fn new() -> (e: Self)
        ensures
            e.wf(),
            !e.is_initialized(),
    {
        Self::with_tag()
    }

    /// Notify `n` listeners without emitting the automatic fence.
    pub fn notify_relaxed(&mut self, n: usize)
        requires
            old(self).wf(),
        ensures
            notify_effect(
                *old(self),
                *final(self),
                (Notify { count: n, additional: false, relaxed: true, tag: () }),
            ),
    {
        self.notify(n.into_notification().relaxed())
    }

    /// Notify `n` listeners beyond those already notified.
    pub fn notify_additional(&mut self, n: usize)
        requires
            old(self).wf(),
        ensures
            notify_effect(
                *old(self),
                *final(self),
                (Notify { count: n, additional: true, relaxed: false, tag: () }),
            ),
    {
        self.notify(n.into_notification().additional())
    }

    /// Notify `n` listeners beyond those already notified, without emitting
    /// the automatic fence.
    pub fn notify_additional_relaxed(&mut self, n: usize)
        requires
            old(self).wf(),
        ensures
            notify_effect(
                *old(self),
                *final(self),
                (Notify { count: n, additional: true, relaxed: true, tag: () }),
            ),
    {
        self.notify(n.into_notification().additional().relaxed())
    }
}

impl<T> Default for Event<T> {
    /// Same as [`Event::with_tag`].
    fn default() -> (e: Self)
        ensures
            e.wf(),
            !e.is_initialized(),
    {
        Self::with_tag()
    }
}

impl<T: Clone> Event<T> {
    /// Notify waiters according to the given configuration — a plain count,
    /// or a [`Notify`] built with its combinators.
    ///
    /// The call first applies the configuration's fence policy, then — only
    /// if the shared state exists and the cached count has not already met
    /// the call's limit — promotes waiters in insertion order until the
    /// limit is met or the registry is exhausted, waking each.  On a handle
    /// nobody has ever listened to it is a pure no-op.
    pub fn notify<N: IntoNotification<T>>(&mut self, notify: N)
        requires
            old(self).wf(),
        ensures
            notify_effect(*old(self), *final(self), notify.notification()),
    {
        let n = notify.into_notification();
        if !n.relaxed {
            full_fence();
        }
        let mut tmp: Option<Inner<T>> = None;
        core::mem::swap(&mut tmp, &mut self.inner);
        match tmp {
            None => {},
            Some(mut inner) => {
                let limit = if n.additional {
                    usize::MAX
                } else {
                    n.count
                };
                if inner.notified < limit {
                    inner.list.notify(n.count, n.additional, n.tag);
                    inner.refresh();
                } else {
                    proof {
                        let ln = inner.list.logical_notified_spec();
                        let ll = inner.list.logical_len_spec();
                        lemma_prefix_characterize(inner.list.drained_flags());
                        lemma_notify_skip(ln, n.count as nat, n.additional, ll);
                        if !inner.list.is_held() {
                            lemma_entries_count(
                                inner.list.entries_seq(),
                                inner.list.notified_count(),
                            );
                            let s = inner.list.entries_seq();
                            assert(count_true(flags_of(s)) == ln);
                            assert(s.len() == ll);
                            assert(promote_target(ln, n.count as nat, n.additional, ll) == ln);
                            assert(notify_rel(s, n.count as nat, n.additional, n.tag, s));
                        }
                    }
                }
                self.inner = Some(inner);
            },
        }
    }

    /// Release the registry's primary store and drain the fallback queue
    /// into it, front to back.  On a handle that was never used this does
    /// nothing.
    pub fn unlock_event(&mut self)
        requires
            old(self).wf(),
        ensures
            final(self).wf(),
            final(self).is_initialized() == old(self).is_initialized(),
            !final(self).is_held(),
            final(self).pending_ops().len() == 0,
            final(self).next_key() == old(self).next_key(),
            final(self).logical_len() == old(self).logical_len(),
            final(self).logical_notified() == old(self).logical_notified(),
            old(self).is_initialized() ==> drain_rel(
                old(self).listeners(),
                old(self).pending_ops(),
                final(self).listeners(),
            ) && final(self).notified_count() == final(self).logical_notified() && final(self).listeners().len() == final(self).logical_len(),
            !old(self).is_initialized() ==> *final(self) == *old(self),
    {
        let mut tmp: Option<Inner<T>> = None;
        core::mem::swap(&mut tmp, &mut self.inner);
        match tmp {
            None => {},
            Some(mut inner) => {
                inner.list.unlock();
                self.inner = Some(inner);
            },
        }
    }
}

} // verus!
