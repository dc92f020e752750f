//! The waiter registry: an ordered arena of listener slots, with an
//! append-only fallback queue used while the primary store is held.
//!
//! Insertion order defines fairness: a notify call promotes the earliest
//! slots that are not yet notified.  Slots are addressed by keys that are
//! handed out in strictly increasing order and never reused, so a key
//! identifies at most one slot for the whole life of the registry.

use vstd::prelude::*;
use vstd::pervasive::VecAdditionalExecFns;
use crate::state::{RegisterResult, State};
use crate::task::Task;

verus! {

/// One slot of the registry: a stable key and the listener's current state.
pub struct Entry<T> {
    /// The key that addresses this slot; strictly increasing in insertion
    /// order and never reused.
    pub key: u64,
    /// The listener's current state.
    pub state: State<T>,
}

/// An operation parked in the fallback queue while the primary store is held.
/// Draining applies the queued operations in the order they arrived.
pub enum Pending<T> {
    /// An insertion: the listener with this key joins at the logical tail in
    /// the `Created` state.
    Listen(u64),
    /// A notify call, recorded with its count, counting mode and tag.
    Notify {
        /// How many waiters the call is meant to satisfy.
        count: usize,
        /// Whether the count is measured against previously unsatisfied
        /// waiters only.
        additional: bool,
        /// The tag delivered to each satisfied waiter.
        tag: T,
    },
}

/// The notified-or-not outline of a slot sequence.
pub open spec fn flags_of<T>(s: Seq<Entry<T>>) -> Seq<bool> {
    s.map_values(|e: Entry<T>| e.state.is_notified_spec())
}

/// How many slots of an outline are notified.
pub open spec fn count_true(fl: Seq<bool>) -> nat
    decreases fl.len(),
{
    if fl.len() == 0 {
        0
    } else {
        count_true(fl.drop_last()) + if fl.last() {
            1nat
        } else {
            0nat
        }
    }
}

/// The notified slots form a prefix of the order: promotion always takes the
/// earliest unsatisfied slot, so nothing notified ever follows something
/// unsatisfied.
pub open spec fn is_prefix(fl: Seq<bool>) -> bool {
    forall|i: int, j: int| 0 <= i <= j < fl.len() && fl[j] ==> fl[i]
}

/// How many slots are notified once a notify call with the given count and
/// mode has been applied to a registry with `c` of `len` slots notified.
pub open spec fn promote_target(c: nat, count: nat, additional: bool, len: nat) -> nat {
    if additional {
        if c + count <= len {
            c + count
        } else {
            len
        }
    } else {
        if count <= c {
            c
        } else if count <= len {
            count
        } else {
            len
        }
    }
}

/// The notified slots of a slot sequence are exactly those below the
/// boundary `c`.
pub open spec fn boundary_ok<T>(s: Seq<Entry<T>>, c: nat) -> bool {
    &&& c <= s.len()
    &&& forall|i: int|
        0 <= i < s.len() ==> (#[trigger] s[i].state.is_notified_spec() <==> i < c)
}

/// The executable form of [`promote_target`].
fn notify_target(c: usize, count: usize, additional: bool, len: usize) -> (t: usize)
    requires
        c <= len,
    ensures
        t as nat == promote_target(c as nat, count as nat, additional, len as nat),
        c <= t <= len,
{
    if additional {
        if count >= len - c {
            len
        } else {
            c + count
        }
    } else {
        if count <= c {
            c
        } else if count >= len {
            len
        } else {
            count
        }
    }
}

/// The outline after one queued operation.
pub open spec fn step_flags<T>(fl: Seq<bool>, op: Pending<T>) -> Seq<bool> {
    match op {
        Pending::Listen(_) => fl.push(false),
        Pending::Notify { count, additional, .. } => {
            let t = promote_target(count_true(fl), count as nat, additional, fl.len());
            Seq::new(fl.len(), |i: int| fl[i] || i < t)
        },
    }
}

/// The outline after a whole queue of operations, applied front to back.
pub open spec fn drain_flags<T>(fl: Seq<bool>, ops: Seq<Pending<T>>) -> Seq<bool>
    decreases ops.len(),
{
    if ops.len() == 0 {
        fl
    } else {
        drain_flags(step_flags(fl, ops[0]), ops.skip(1))
    }
}

/// What one notify call does to the slots themselves: the slots from the old
/// notified boundary up to the new target are promoted, carrying the call's
/// counting mode and a clone of its tag; every other slot is untouched.
pub open spec fn notify_rel<T: Clone>(
    s: Seq<Entry<T>>,
    count: nat,
    additional: bool,
    tag: T,
    out: Seq<Entry<T>>,
) -> bool {
    let c = count_true(flags_of(s));
    let t = promote_target(c, count, additional, s.len());
    &&& out.len() == s.len()
    &&& forall|i: int| 0 <= i < s.len() && !(c <= i < t) ==> out[i] == s[i]
    &&& forall|i: int|
        c <= i < t ==> out[i].key == s[i].key && (out[i].state matches State::Notified {
            additional: a,
            tag: tg,
        } && a == additional && vstd::pervasive::cloned(tag, tg))
}

/// What one queued operation does to the slots.
pub open spec fn step_rel<T: Clone>(s: Seq<Entry<T>>, op: Pending<T>, out: Seq<Entry<T>>) -> bool {
    match op {
        Pending::Listen(key) => out == s.push(Entry { key, state: State::<T>::Created }),
        Pending::Notify { count, additional, tag } => notify_rel(s, count as nat, additional, tag, out),
    }
}

/// What draining a whole queue does to the slots, applied front to back.
pub open spec fn drain_rel<T: Clone>(s: Seq<Entry<T>>, ops: Seq<Pending<T>>, out: Seq<Entry<T>>) -> bool
    decreases ops.len(),
{
    if ops.len() == 0 {
        out == s
    } else {
        exists|mid: Seq<Entry<T>>| #[trigger] step_rel(s, ops[0], mid) && drain_rel(mid, ops.skip(1), out)
    }
}

/// An outline whose notified slots are exactly those below a boundary has
/// that boundary as its count.
pub proof fn lemma_boundary_count(fl: Seq<bool>, t: nat)
    requires
        t <= fl.len(),
        forall|i: int| 0 <= i < fl.len() ==> (fl[i] <==> i < t),
    ensures
        count_true(fl) == t,
    decreases fl.len(),
{
    if fl.len() > 0 {
        if fl.last() {
            lemma_boundary_count(fl.drop_last(), (fl.len() - 1) as nat);
        } else {
            lemma_boundary_count(fl.drop_last(), t);
        }
    }
}

/// In a prefix outline, a slot is notified exactly when its index is below
/// the count.
pub proof fn lemma_prefix_characterize(fl: Seq<bool>)
    requires
        is_prefix(fl),
    ensures
        count_true(fl) <= fl.len(),
        forall|i: int| 0 <= i < fl.len() ==> (fl[i] <==> i < count_true(fl)),
    decreases fl.len(),
{
    if fl.len() > 0 {
        let d = fl.drop_last();
        let n = fl.len() - 1;
        assert(is_prefix(d));
        lemma_prefix_characterize(d);
        assert(forall|i: int| 0 <= i < n ==> #[trigger] fl[i] == d[i]);
        if fl.last() {
            assert forall|i: int| 0 <= i < d.len() implies #[trigger] d[i] by {
                assert(fl[n]);
                assert(fl[i]);
            }
            assert(count_true(d) == d.len()) by {
                if count_true(d) < d.len() {
                    assert(d[count_true(d) as int]);
                }
            }
            assert(count_true(fl) == fl.len());
            assert forall|i: int| 0 <= i < fl.len() implies (#[trigger] fl[i] <==> i < count_true(
                fl,
            )) by {
                if i < n {
                    assert(d[i]);
                } else {
                    assert(fl[n]);
                }
            }
        } else {
            assert(count_true(fl) == count_true(d));
            assert forall|i: int| 0 <= i < fl.len() implies (#[trigger] fl[i] <==> i < count_true(
                fl,
            )) by {
                if i < n {
                    assert(fl[i] == d[i]);
                } else {
                    assert(!fl[n]);
                    assert(count_true(d) <= n);
                }
            }
        }
    }
}

/// A notify call whose limit the registry has already met has the current
/// count as its promotion target: nothing is promoted.
pub proof fn lemma_notify_skip(c: nat, count: nat, additional: bool, len: nat)
    requires
        c <= len,
        if additional {
            c == len
        } else {
            c >= count || c == len
        },
    ensures
        promote_target(c, count, additional, len) == c,
{
}

/// The outline of a slot sequence, slot by slot.
pub proof fn lemma_flags_index<T>(s: Seq<Entry<T>>)
    ensures
        flags_of(s).len() == s.len(),
        forall|i: int|
            0 <= i < s.len() ==> #[trigger] flags_of(s)[i] == s[i].state.is_notified_spec(),
{
    assert forall|i: int|
        0 <= i < s.len() implies #[trigger] flags_of(s)[i] == s[i].state.is_notified_spec() by {}
}

/// A slot sequence with a correct boundary has that boundary as its notified
/// count, and its outline keeps the prefix shape.
pub proof fn lemma_entries_count<T>(s: Seq<Entry<T>>, c: nat)
    requires
        boundary_ok(s, c),
    ensures
        count_true(flags_of(s)) == c,
        is_prefix(flags_of(s)),
        flags_of(s).len() == s.len(),
{
    lemma_flags_index(s);
    assert forall|i: int| 0 <= i < flags_of(s).len() implies (flags_of(s)[i] <==> i < c) by {
        assert(flags_of(s)[i] == s[i].state.is_notified_spec());
    }
    lemma_boundary_count(flags_of(s), c);
    assert forall|i: int, j: int|
        0 <= i <= j < flags_of(s).len() && flags_of(s)[j] implies flags_of(s)[i] by {
        assert(s[j].state.is_notified_spec());
        assert(j < c);
        assert(s[i].state.is_notified_spec());
    }
}

/// Draining a queue with one more operation at the back is draining the
/// queue, then applying that operation.
pub proof fn lemma_drain_flags_snoc<T>(fl: Seq<bool>, ops: Seq<Pending<T>>, op: Pending<T>)
    ensures
        drain_flags(fl, ops.push(op)) == step_flags(drain_flags(fl, ops), op),
    decreases ops.len(),
{
    if ops.len() == 0 {
        assert(ops.push(op)[0] == op);
        assert(ops.push(op).skip(1) =~= Seq::<Pending<T>>::empty());
        assert(drain_flags(fl, ops.push(op)) == drain_flags(
            step_flags(fl, op),
            ops.push(op).skip(1),
        ));
        assert(drain_flags(step_flags(fl, op), ops.push(op).skip(1)) == step_flags(fl, op));
    } else {
        assert(ops.push(op)[0] == ops[0]);
        assert(ops.push(op).skip(1) =~= ops.skip(1).push(op));
        lemma_drain_flags_snoc(step_flags(fl, ops[0]), ops.skip(1), op);
        assert(drain_flags(fl, ops.push(op)) == drain_flags(
            step_flags(fl, ops[0]),
            ops.skip(1).push(op),
        ));
    }
}

/// The relational form of the same fact: a drain of a longer queue is a
/// drain of the shorter one followed by the last operation.
pub proof fn lemma_drain_rel_snoc<T: Clone>(
    s: Seq<Entry<T>>,
    ops: Seq<Pending<T>>,
    op: Pending<T>,
    mid: Seq<Entry<T>>,
    out: Seq<Entry<T>>,
)
    requires
        drain_rel(s, ops, mid),
        step_rel(mid, op, out),
    ensures
        drain_rel(s, ops.push(op), out),
    decreases ops.len(),
{
    if ops.len() == 0 {
        assert(mid == s);
        assert(ops.push(op)[0] == op);
        assert(ops.push(op).skip(1) =~= Seq::<Pending<T>>::empty());
        assert(drain_rel(out, ops.push(op).skip(1), out));
        assert(step_rel(s, ops.push(op)[0], out) && drain_rel(out, ops.push(op).skip(1), out));
    } else {
        let mid0 = choose|mid0: Seq<Entry<T>>|
            #[trigger] step_rel(s, ops[0], mid0) && drain_rel(mid0, ops.skip(1), mid);
        assert(ops.push(op)[0] == ops[0]);
        assert(ops.push(op).skip(1) =~= ops.skip(1).push(op));
        lemma_drain_rel_snoc(mid0, ops.skip(1), op, mid, out);
        assert(step_rel(s, ops.push(op)[0], mid0) && drain_rel(mid0, ops.push(op).skip(1), out));
    }
}

/// The registry.  `entries` is the primary store in insertion order;
/// `pending` is the fallback queue, non-empty only while the primary store is
/// held; the counters cache how many slots exist and are notified once the
/// queue is drained.
pub struct List<T> {
    pub entries: Vec<Entry<T>>,
    pub pending: Vec<Pending<T>>,
    pub held: bool,
    pub next_key: u64,
    pub notified: usize,
    pub logical_len: usize,
    pub logical_notified: usize,
}

impl<T> List<T> {
    /// The slots of the primary store, in insertion order.
    pub open spec fn entries_seq(&self) -> Seq<Entry<T>> {
        self.entries@
    }

    /// The queued operations, oldest first.
    pub open spec fn pending_seq(&self) -> Seq<Pending<T>> {
        self.pending@
    }

    /// Whether the primary store is currently held.
    pub open spec fn is_held(&self) -> bool {
        self.held
    }

    /// The next key to be handed out.
    pub open spec fn next_key_spec(&self) -> u64 {
        self.next_key
    }

    /// How many slots of the primary store are notified.
    pub open spec fn notified_count(&self) -> nat {
        self.notified as nat
    }

    /// How many slots the registry will hold once the queue is drained.
    pub open spec fn logical_len_spec(&self) -> nat {
        self.logical_len as nat
    }

    /// How many slots will be notified once the queue is drained.
    pub open spec fn logical_notified_spec(&self) -> nat {
        self.logical_notified as nat
    }

    /// The notified-or-not outline once the queue is drained.
    pub open spec fn drained_flags(&self) -> Seq<bool> {
        drain_flags(flags_of(self.entries@), self.pending@)
    }

    /// Well-formedness: the notified slots are exactly those below the
    /// notified boundary; keys increase strictly through the primary store
    /// and then through the queued insertions, all below the next key; the
    /// queue is empty while the store is free; and the cached logical
    /// counters match the drained outline, which keeps the prefix shape.
    pub open spec fn wf(&self) -> bool {
        &&& boundary_ok(self.entries@, self.notified as nat)
        &&& forall|i: int, j: int|
            0 <= i < j < self.entries@.len() ==> #[trigger] self.entries@[i].key
                < #[trigger] self.entries@[j].key
        &&& forall|i: int|
            0 <= i < self.entries@.len() ==> #[trigger] self.entries@[i].key < self.next_key
        &&& forall|i: int, j: int|
            0 <= i < j < self.pending@.len() && #[trigger] self.pending@[i] is Listen
                && #[trigger] self.pending@[j] is Listen ==> self.pending@[i]->Listen_0
                < self.pending@[j]->Listen_0
        &&& forall|i: int|
            0 <= i < self.pending@.len() && #[trigger] self.pending@[i] is Listen
                ==> self.pending@[i]->Listen_0 < self.next_key
        &&& forall|i: int, j: int|
            0 <= i < self.entries@.len() && 0 <= j < self.pending@.len()
                && #[trigger] self.pending@[j] is Listen ==> #[trigger] self.entries@[i].key
                < self.pending@[j]->Listen_0
        &&& !self.held ==> self.pending@.len() == 0
        &&& self.logical_len as nat == self.drained_flags().len()
        &&& self.logical_notified as nat == count_true(self.drained_flags())
        &&& is_prefix(self.drained_flags())
    }

    /// A fresh, empty registry.
    pub fn new() -> (l: List<T>)
        ensures
            l.wf(),
            l.entries_seq() =~= Seq::<Entry<T>>::empty(),
            l.pending_seq() =~= Seq::<Pending<T>>::empty(),
            !l.is_held(),
            l.next_key_spec() == 0,
            l.logical_len_spec() == 0,
            l.logical_notified_spec() == 0,
    {
        let l = List {
            entries: Vec::new(),
            pending: Vec::new(),
            held: false,
            next_key: 0,
            notified: 0,
            logical_len: 0,
            logical_notified: 0,
        };
        proof {
            assert(flags_of(l.entries@) =~= Seq::<bool>::empty());
        }
        l
    }

    /// Append a new slot in the `Created` state and hand out its key.  While
    /// the primary store is held the insertion is parked in the fallback
    /// queue instead; either way the listener has logically joined at the
    /// tail.
    pub fn insert(&mut self) -> (key: u64)
        requires
            old(self).wf(),
            old(self).next_key_spec() < u64::MAX,
            old(self).logical_len_spec() < usize::MAX,
        ensures
            final(self).wf(),
            key == old(self).next_key_spec(),
            final(self).next_key_spec() == old(self).next_key_spec() + 1,
            final(self).is_held() == old(self).is_held(),
            final(self).notified_count() == old(self).notified_count(),
            final(self).logical_len_spec() == old(self).logical_len_spec() + 1,
            final(self).logical_notified_spec() == old(self).logical_notified_spec(),
            !old(self).is_held() ==> final(self).entries_seq() == old(self).entries_seq().push(
                (Entry { key, state: State::<T>::Created }),
            ) && final(self).pending_seq() == old(self).pending_seq(),
            old(self).is_held() ==> final(self).entries_seq() == old(self).entries_seq()
                && final(self).pending_seq() == old(self).pending_seq().push(Pending::<T>::Listen(key)),
    {
        let key = self.next_key;
        self.next_key = self.next_key + 1;
        self.logical_len = self.logical_len + 1;
        if self.held {
            self.pending.push(Pending::Listen(key));
            proof {
                let fl0 = drain_flags(flags_of(self.entries@), old(self).pending@);
                lemma_drain_flags_snoc(
                    flags_of(self.entries@),
                    old(self).pending@,
                    Pending::<T>::Listen(key),
                );
                assert(self.drained_flags() == fl0.push(false));
                assert(fl0.push(false).drop_last() =~= fl0);
                assert(count_true(fl0.push(false)) == count_true(fl0));
            }
        } else {
            self.entries.push(Entry { key, state: State::Created });
            proof {
                assert(flags_of(self.entries@) =~= flags_of(old(self).entries@).push(false));
                assert(flags_of(self.entries@).drop_last() =~= flags_of(old(self).entries@));
                assert(count_true(flags_of(self.entries@)) == count_true(
                    flags_of(old(self).entries@),
                ));
            }
        }
        key
    }

    /// Take hold of the primary store, as a contending operation would.
    /// Returns whether the store was free; while it is held, insertions and
    /// notifications divert to the fallback queue.
    pub fn lock(&mut self) -> (r: bool)
        requires
            old(self).wf(),
        ensures
            final(self).wf(),
            r == !old(self).is_held(),
            final(self).is_held(),
            final(self).entries_seq() == old(self).entries_seq(),
            final(self).pending_seq() == old(self).pending_seq(),
            final(self).next_key_spec() == old(self).next_key_spec(),
            final(self).notified_count() == old(self).notified_count(),
            final(self).logical_len_spec() == old(self).logical_len_spec(),
            final(self).logical_notified_spec() == old(self).logical_notified_spec(),
    {
        let r = !self.held;
        self.held = true;
        r
    }

    /// Look up the slot addressed by a key.  The result is the slot's index,
    /// or the store's length where no slot has the key.
    #[verifier::loop_isolation(false)]
    fn find(&self, key: u64) -> (idx: usize)
        ensures
            idx <= self.entries@.len(),
            idx < self.entries@.len() ==> self.entries@[idx as int].key == key,
            forall|j: int| 0 <= j < idx ==> self.entries@[j].key != key,
            idx == self.entries@.len() ==> forall|j: int|
                0 <= j < self.entries@.len() ==> self.entries@[j].key != key,
    {
        let mut idx: usize = 0;
        while idx < self.entries.len() && self.entries[idx].key != key
            invariant
                idx <= self.entries@.len(),
                forall|j: int| 0 <= j < idx ==> self.entries@[j].key != key,
            decreases self.entries@.len() - idx,
        {
            idx = idx + 1;
        }
        idx
    }

    /// Attach (or replace) a wake handle on the slot addressed by `key`.
    ///
    /// A slot already holding an unconsumed notification hands its tag over
    /// instead, moving to the consumed state; the wake handle is not touched.
    /// A key no slot carries reports that the listener was never inserted.
    /// Re-registering a slot whose tag was already consumed is a
    /// double-consumption contract violation and is excluded.
    pub fn register(&mut self, key: u64, task: Task) -> (r: RegisterResult<T>)
        requires
            old(self).wf(),
            !old(self).is_held(),
            forall|i: int|
                0 <= i < old(self).entries_seq().len() && old(self).entries_seq()[i].key == key
                    ==> !(#[trigger] old(self).entries_seq()[i].state is NotifiedTaken),
        ensures
            final(self).wf(),
            final(self).is_held() == old(self).is_held(),
            final(self).pending_seq() == old(self).pending_seq(),
            final(self).next_key_spec() == old(self).next_key_spec(),
            final(self).notified_count() == old(self).notified_count(),
            final(self).logical_len_spec() == old(self).logical_len_spec(),
            final(self).logical_notified_spec() == old(self).logical_notified_spec(),
            (forall|i: int|
                0 <= i < old(self).entries_seq().len() ==> #[trigger] old(
                    self,
                ).entries_seq()[i].key != key) ==> r is NeverInserted && final(self).entries_seq() == old(
                self,
            ).entries_seq(),
            forall|i: int|
                0 <= i < old(self).entries_seq().len() && #[trigger] old(
                    self,
                ).entries_seq()[i].key == key ==> {
                    let s = old(self).entries_seq();
                    &&& (s[i].state is Created || s[i].state is Task ==> final(self).entries_seq()
                        == s.update(i, (Entry { key, state: State::Task(task) })) && r
                        is Registered)
                    &&& (s[i].state matches State::Notified { additional: a, tag: t }
                        ==> final(self).entries_seq() == s.update(
                        i,
                        (Entry { key, state: State::<T>::NotifiedTaken }),
                    ) && r == RegisterResult::<T>::Notified(t))
                },
    {
        let ghost s = old(self).entries_seq();
        let ghost c = old(self).notified as nat;
        let idx = self.find(key);
        if idx == self.entries.len() {
            return RegisterResult::NeverInserted;
        }
        proof {
            assert forall|i: int| 0 <= i < s.len() && s[i].key == key implies i == idx by {
                if i < idx {
                    assert(s[i].key < s[idx as int].key);
                }
                if i > idx {
                    assert(s[idx as int].key < s[i].key);
                }
            }
            lemma_entries_count(s, c);
        }
        let mut slot = Entry { key, state: State::NotifiedTaken };
        self.entries.set_and_swap(idx, &mut slot);
        let r = match slot.state {
            State::Created => {
                self.entries.set(idx, Entry { key, state: State::Task(task) });
                RegisterResult::Registered
            },
            State::Task(_previous) => {
                self.entries.set(idx, Entry { key, state: State::Task(task) });
                RegisterResult::Registered
            },
            State::Notified { tag, additional: _ } => RegisterResult::Notified(tag),
            State::NotifiedTaken => vstd::pervasive::unreached(),
        };
        proof {
            if s[idx as int].state is Created || s[idx as int].state is Task {
                assert(self.entries@ =~= s.update(
                    idx as int,
                    (Entry { key, state: State::Task(task) }),
                ));
            } else {
                assert(self.entries@ =~= s.update(
                    idx as int,
                    (Entry { key, state: State::<T>::NotifiedTaken }),
                ));
            }
            assert forall|i: int|
                0 <= i < self.entries@.len() implies (#[trigger] self.entries@[i].state
                .is_notified_spec() <==> i < c) by {
                if i != idx {
                    assert(self.entries@[i] == s[i]);
                }
                assert(s[i].state.is_notified_spec() <==> i < c);
            }
            lemma_entries_count(self.entries@, c);
        }
        r
    }

    /// Detach the slot addressed by `key`, in whatever state it is, and
    /// return that state so the caller can act on it.
    ///
    /// With `propagate` set — the destructor's path — a slot that held an
    /// unconsumed notification re-delivers it: the earliest unsatisfied slot,
    /// if there is one, is promoted with the same counting mode and the very
    /// tag, and its wake handle is invoked; the probe then reports the
    /// notification as consumed, since it moved on.  Without `propagate` —
    /// the explicit paths — nothing cascades.  A key no slot carries returns
    /// nothing and changes nothing.
    pub fn remove(&mut self, key: u64, propagate: bool) -> (r: Option<State<T>>)
        requires
            old(self).wf(),
            !old(self).is_held(),
        ensures
            final(self).wf(),
            final(self).is_held() == old(self).is_held(),
            final(self).pending_seq() == old(self).pending_seq(),
            final(self).next_key_spec() == old(self).next_key_spec(),
            final(self).logical_len_spec() == final(self).entries_seq().len(),
            final(self).logical_notified_spec() == final(self).notified_count(),
            (forall|i: int|
                0 <= i < old(self).entries_seq().len() ==> #[trigger] old(
                    self,
                ).entries_seq()[i].key != key) ==> r is None && final(self).entries_seq() == old(
                self,
            ).entries_seq() && final(self).notified_count() == old(self).notified_count(),
            forall|i: int|
                0 <= i < old(self).entries_seq().len() && #[trigger] old(
                    self,
                ).entries_seq()[i].key == key ==> {
                    let s = old(self).entries_seq();
                    let c = old(self).notified_count();
                    &&& final(self).entries_seq().len() == s.len() - 1
                    &&& (!(propagate && s[i].state is Notified) ==> final(self).entries_seq() == s.remove(
                        i,
                    ) && r == Some(s[i].state) && final(self).notified_count() == (
                    if s[i].state.is_notified_spec() {
                        c - 1
                    } else {
                        c as int
                    }))
                    &&& (s[i].state matches State::Notified { additional: a, tag: t } ==> propagate
                        ==> (if c < s.len() {
                        &&& final(self).entries_seq() == s.remove(i).update(
                            c - 1,
                            (Entry {
                                key: s[c as int].key,
                                state: State::Notified { additional: a, tag: t },
                            }),
                        )
                        &&& r == Some(State::<T>::NotifiedTaken)
                        &&& final(self).notified_count() == c
                    } else {
                        &&& final(self).entries_seq() == s.remove(i)
                        &&& r == Some(s[i].state)
                        &&& final(self).notified_count() == c - 1
                    }))
                },
    {
        let ghost s = old(self).entries_seq();
        let ghost c = old(self).notified as nat;
        let idx = self.find(key);
        if idx == self.entries.len() {
            proof {
                lemma_entries_count(s, c);
            }
            return None;
        }
        proof {
            assert forall|i: int| 0 <= i < s.len() && s[i].key == key implies i == idx by {
                if i < idx {
                    assert(s[i].key < s[idx as int].key);
                }
                if i > idx {
                    assert(s[idx as int].key < s[i].key);
                }
            }
            lemma_entries_count(s, c);
            assert(old(self).logical_len as nat == s.len());
            if s[idx as int].state.is_notified_spec() {
                assert(idx < c);
            }
        }
        let e = self.entries.remove(idx);
        let was_notified = e.state.is_notified();
        self.logical_len = self.logical_len - 1;
        if was_notified {
            self.notified = self.notified - 1;
            self.logical_notified = self.logical_notified - 1;
        }
        proof {
            s.remove_ensures(idx as int);
            assert(self.entries@ == s.remove(idx as int));
        }
        let r = if propagate {
            match e.state {
                State::Notified { additional, tag } => {
                    if self.notified < self.entries.len() {
                        let j = self.notified;
                        let k2 = self.entries[j].key;
                        proof {
                            assert(j == c - 1);
                            assert(self.entries@[j as int] == s[c as int]);
                        }
                        let mut slot = Entry {
                            key: k2,
                            state: State::Notified { additional, tag },
                        };
                        self.entries.set_and_swap(j, &mut slot);
                        match slot.state {
                            State::Task(t) => t.wake(),
                            _ => {},
                        }
                        self.notified = self.notified + 1;
                        self.logical_notified = self.logical_notified + 1;
                        Some(State::NotifiedTaken)
                    } else {
                        Some(State::Notified { additional, tag })
                    }
                },
                other => Some(other),
            }
        } else {
            Some(e.state)
        };
        proof {
            let sr = s.remove(idx as int);
            assert forall|i: int|
                0 <= i < self.entries@.len() implies (#[trigger] self.entries@[i].state
                .is_notified_spec() <==> i < self.notified) by {
                if propagate && s[idx as int].state is Notified && c < s.len() {
                    if i != c - 1 {
                        assert(self.entries@[i] == sr[i]);
                        if i < idx {
                            assert(sr[i] == s[i]);
                        } else {
                            assert(sr[i] == s[i + 1]);
                        }
                    }
                } else {
                    assert(self.entries@[i] == sr[i]);
                    if i < idx {
                        assert(sr[i] == s[i]);
                    } else {
                        assert(sr[i] == s[i + 1]);
                    }
                }
            }
            lemma_entries_count(self.entries@, self.notified as nat);
        }
        r
    }
}

impl<T: Clone> List<T> {
    /// Promote the earliest unsatisfied slots of the primary store until the
    /// call's target is met, recording the counting mode and a clone of the
    /// tag on each and invoking the wake handle of each that had one.
    #[verifier::loop_isolation(false)]
    fn promote(&mut self, count: usize, additional: bool, tag: T)
        requires
            boundary_ok(old(self).entries@, old(self).notified as nat),
        ensures
            notify_rel(old(self).entries@, count as nat, additional, tag, final(self).entries@),
            boundary_ok(final(self).entries@, final(self).notified as nat),
            final(self).notified as nat == promote_target(
                old(self).notified as nat,
                count as nat,
                additional,
                old(self).entries@.len(),
            ),
            final(self).entries@.len() == old(self).entries@.len(),
            forall|i: int|
                0 <= i < final(self).entries@.len() ==> #[trigger] final(self).entries@[i].key == old(
                    self,
                ).entries@[i].key,
            forall|i: int|
                0 <= i < old(self).notified ==> #[trigger] final(self).entries@[i] == old(
                    self,
                ).entries@[i],
            final(self).pending@ == old(self).pending@,
            final(self).held == old(self).held,
            final(self).next_key == old(self).next_key,
            final(self).logical_len == old(self).logical_len,
            final(self).logical_notified == old(self).logical_notified,
    {
        proof {
            lemma_entries_count(self.entries@, self.notified as nat);
        }
        let start = self.notified;
        let target = notify_target(start, count, additional, self.entries.len());
        let mut i = start;
        while i < target
            invariant
                start <= i <= target,
                self.entries@.len() == old(self).entries@.len(),
                forall|j: int|
                    0 <= j < self.entries@.len() && !(start <= j < i) ==> #[trigger] self
                        .entries@[j] == old(self).entries@[j],
                forall|j: int|
                    start <= j < i ==> #[trigger] self.entries@[j].key == old(
                        self,
                    ).entries@[j].key && (self.entries@[j].state matches State::Notified {
                        additional: a,
                        tag: tg,
                    } && a == additional && vstd::pervasive::cloned(tag, tg)),
                self.pending@ == old(self).pending@,
                self.held == old(self).held,
                self.next_key == old(self).next_key,
                self.notified == old(self).notified,
                self.logical_len == old(self).logical_len,
                self.logical_notified == old(self).logical_notified,
            decreases target - i,
        {
            let ghost prev = self.entries@;
            let k = self.entries[i].key;
            let cloned_tag = tag.clone();
            let mut slot = Entry { key: k, state: State::Notified { additional, tag: cloned_tag } };
            self.entries.set_and_swap(i, &mut slot);
            match slot.state {
                State::Task(t) => t.wake(),
                _ => {},
            }
            proof {
                assert(prev[i as int] == old(self).entries@[i as int]);
                assert(self.entries@ == prev.update(
                    i as int,
                    (Entry { key: k, state: State::Notified { additional, tag: cloned_tag } }),
                ));
                assert(vstd::pervasive::cloned(tag, cloned_tag));
            }
            i = i + 1;
        }
        proof {
            assert forall|j: int|
                0 <= j < self.entries@.len() implies (#[trigger] self.entries@[j].state
                .is_notified_spec() <==> j < target) by {
                if j < start {
                    assert(self.entries@[j] == old(self).entries@[j]);
                } else if j < target {
                    assert(self.entries@[j].key == old(self).entries@[j].key);
                    assert(self.entries@[j].state is Notified);
                } else {
                    assert(self.entries@[j] == old(self).entries@[j]);
                }
            }
            let s0 = old(self).entries@;
            let c0 = count_true(flags_of(s0));
            let t0 = promote_target(c0, count as nat, additional, s0.len());
            assert(c0 == start);
            assert(t0 == target);
            assert(forall|i: int|
                0 <= i < s0.len() && !(c0 <= i < t0) ==> self.entries@[i] == s0[i]);
            assert(i == target);
            assert forall|m: int|
                c0 <= m < t0 implies #[trigger] self.entries@[m].key == s0[m].key && (self
                .entries@[m].state matches State::Notified { additional: a, tag: tg } && a
                == additional && vstd::pervasive::cloned(tag, tg)) by {
                assert(start <= m < target);
                assert(self.entries@[m].key == old(self).entries@[m].key);
                assert(self.entries@[m].state matches State::Notified { additional: a, tag: tg }
                    && a == additional && vstd::pervasive::cloned(tag, tg));
            }
            assert(notify_rel(s0, count as nat, additional, tag, self.entries@));
        }
        self.notified = target;
    }

    /// Apply one notify call.  While the primary store is held the call is
    /// parked in the fallback queue; otherwise the promotion happens at once.
    /// Either way the logical notified count moves to the call's target.
    pub fn notify(&mut self, count: usize, additional: bool, tag: T)
        requires
            old(self).wf(),
        ensures
            final(self).wf(),
            final(self).is_held() == old(self).is_held(),
            final(self).next_key_spec() == old(self).next_key_spec(),
            final(self).logical_len_spec() == old(self).logical_len_spec(),
            final(self).logical_notified_spec() == promote_target(
                old(self).logical_notified_spec(),
                count as nat,
                additional,
                old(self).logical_len_spec(),
            ),
            !old(self).is_held() ==> notify_rel(
                old(self).entries_seq(),
                count as nat,
                additional,
                tag,
                final(self).entries_seq(),
            ) && final(self).pending_seq() == old(self).pending_seq() && final(self).notified_count()
                == final(self).logical_notified_spec(),
            old(self).is_held() ==> final(self).entries_seq() == old(self).entries_seq()
                && final(self).notified_count() == old(self).notified_count() && final(self).pending_seq()
                == old(self).pending_seq().push(
                (Pending::<T>::Notify { count, additional, tag }),
            ),
    {
        proof {
            lemma_prefix_characterize(self.drained_flags());
        }
        if self.held {
            let t = notify_target(self.logical_notified, count, additional, self.logical_len);
            let ghost op = Pending::<T>::Notify { count, additional, tag };
            self.pending.push(Pending::Notify { count, additional, tag });
            self.logical_notified = t;
            proof {
                let fl0 = drain_flags(flags_of(self.entries@), old(self).pending@);
                lemma_drain_flags_snoc(flags_of(self.entries@), old(self).pending@, op);
                assert(self.drained_flags() == step_flags(fl0, op));
                let tn = promote_target(count_true(fl0), count as nat, additional, fl0.len());
                assert(tn == t as nat);
                assert forall|i: int| 0 <= i < fl0.len() implies (#[trigger] self.drained_flags()[i]
                    <==> i < tn) by {
                    assert(fl0[i] <==> i < count_true(fl0));
                }
                lemma_boundary_count(self.drained_flags(), tn);
                assert forall|i: int, j: int|
                    0 <= i <= j < self.drained_flags().len() && self.drained_flags()[j] implies self
                    .drained_flags()[i] by {
                    assert(j < tn);
                }
            }
        } else {
            proof {
                lemma_entries_count(old(self).entries@, old(self).notified as nat);
            }
            self.promote(count, additional, tag);
            self.logical_notified = self.notified;
            proof {
                lemma_entries_count(self.entries@, self.notified as nat);
            }
        }
    }

    /// Release the primary store and drain the fallback queue into it, front
    /// to back: parked insertions join at the tail and parked notify calls
    /// promote, exactly as they would have uncontended.  Afterwards the
    /// queue is empty and the cached logical counters describe the store
    /// itself.
    pub fn unlock(&mut self)
        requires
            old(self).wf(),
        ensures
            final(self).wf(),
            !final(self).is_held(),
            final(self).pending_seq().len() == 0,
            drain_rel(old(self).entries_seq(), old(self).pending_seq(), final(self).entries_seq()),
            final(self).next_key_spec() == old(self).next_key_spec(),
            final(self).logical_len_spec() == old(self).logical_len_spec(),
            final(self).logical_notified_spec() == old(self).logical_notified_spec(),
            final(self).notified_count() == final(self).logical_notified_spec(),
            final(self).entries_seq().len() == final(self).logical_len_spec(),
            flags_of(final(self).entries_seq()) == drain_flags(
                flags_of(old(self).entries_seq()),
                old(self).pending_seq(),
            ),
    {
        let ghost all_ops = self.pending@;
        let ghost orig_entries = self.entries@;
        while self.pending.len() > 0
            invariant
                self.wf(),
                self.held == old(self).held,
                self.next_key == old(self).next_key,
                self.logical_len == old(self).logical_len,
                self.logical_notified == old(self).logical_notified,
                self.pending@ =~= all_ops.skip(all_ops.len() - self.pending@.len()),
                self.pending@.len() <= all_ops.len(),
                drain_rel(
                    orig_entries,
                    all_ops.take(all_ops.len() - self.pending@.len()),
                    self.entries@,
                ),
            decreases self.pending@.len(),
        {
            let ghost done = all_ops.take(all_ops.len() - self.pending@.len());
            let ghost entries_before = self.entries@;
            let ghost op = self.pending@[0];
            let next = self.pending.remove(0);
            proof {
                assert(self.pending@ =~= all_ops.skip(all_ops.len() - self.pending@.len()));
            }
            match next {
                Pending::Listen(k) => {
                    self.entries.push(Entry { key: k, state: State::Created });
                    proof {
                        assert(flags_of(self.entries@) =~= flags_of(entries_before).push(false));
                        assert(flags_of(self.entries@).drop_last() =~= flags_of(entries_before));
                        assert(step_rel(entries_before, op, self.entries@));
                    }
                },
                Pending::Notify { count, additional, tag } => {
                    let ghost pre = self.entries@;
                    let ghost pre_notified = self.notified as nat;
                    proof {
                        assert(forall|i: int|
                            0 <= i < pre.len() ==> flags_of(pre)[i] == #[trigger] pre[i].state
                                .is_notified_spec());
                        lemma_boundary_count(flags_of(pre), pre_notified);
                    }
                    self.promote(count, additional, tag);
                    proof {
                        assert(step_rel(entries_before, op, self.entries@));
                        assert forall|i: int| 0 <= i < self.entries@.len() implies flags_of(
                            self.entries@,
                        )[i] == #[trigger] step_flags(flags_of(pre), op)[i] by {
                            assert(flags_of(self.entries@)[i] == self.entries@[i].state
                                .is_notified_spec());
                            assert(flags_of(pre)[i] == pre[i].state.is_notified_spec());
                        }
                        assert(flags_of(self.entries@) =~= step_flags(flags_of(pre), op));
                    }
                },
            }
            proof {
                lemma_drain_rel_snoc(orig_entries, done, op, entries_before, self.entries@);
                assert(done.push(op) =~= all_ops.take(all_ops.len() - self.pending@.len()));
            }
        }
        self.held = false;
        proof {
            assert(all_ops.take(all_ops.len() as int) =~= all_ops);
            assert(forall|i: int|
                0 <= i < self.entries@.len() ==> flags_of(self.entries@)[i] == #[trigger] self
                    .entries@[i].state.is_notified_spec());
            lemma_boundary_count(flags_of(self.entries@), self.notified as nat);
            let fl_end = flags_of(self.entries@);
            let fl_drained = drain_flags(flags_of(orig_entries), all_ops);
            lemma_prefix_characterize(fl_drained);
            assert(fl_end.len() == fl_drained.len());
            assert(count_true(fl_end) == count_true(fl_drained));
            assert forall|i: int| 0 <= i < fl_end.len() implies fl_end[i] == fl_drained[i] by {
                assert(fl_end[i] <==> i < count_true(fl_end));
                assert(fl_drained[i] <==> i < count_true(fl_drained));
            }
            assert(fl_end =~= fl_drained);
        }
    }
}

} // verus!
