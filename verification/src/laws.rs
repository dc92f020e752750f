//! Laws of the notification algorithm, stated and proved once for every
//! registry and every handle.

use vstd::prelude::*;
use vstd::pervasive::cloned;
use crate::event::{notify_effect, Event};
use crate::list::{
    boundary_ok, count_true, flags_of, is_prefix, lemma_boundary_count, lemma_entries_count,
    lemma_flags_index, lemma_prefix_characterize, notify_rel, promote_target, Entry,
};
use crate::notify::Notify;
use crate::state::State;

verus! {

/// Additional notifications are cumulative, not overlapping: of two
/// successive "additional" calls, the first satisfies exactly the `a`
/// earliest previously unsatisfied waiters (fewer if the registry runs out),
/// the second the next `b`, and the second call leaves everything the first
/// promoted untouched.
pub proof fn lemma_additional_cumulative<T: Clone>(
    s0: Seq<Entry<T>>,
    a: nat,
    b: nat,
    ta: T,
    tb: T,
    s1: Seq<Entry<T>>,
    s2: Seq<Entry<T>>,
)
    requires
        is_prefix(flags_of(s0)),
        notify_rel(s0, a, true, ta, s1),
        notify_rel(s1, b, true, tb, s2),
    ensures
        ({
            let c0 = count_true(flags_of(s0));
            let t0 = promote_target(c0, a, true, s0.len());
            let t1 = promote_target(t0, b, true, s0.len());
            &&& count_true(flags_of(s1)) == t0
            &&& count_true(flags_of(s2)) == t1
            &&& forall|i: int| c0 <= i < t0 ==> s2[i] == s1[i]
            &&& forall|i: int|
                c0 <= i < t0 ==> ((#[trigger] s1[i]).state matches State::Notified {
                    additional: ad,
                    tag: tg,
                } && ad && cloned(ta, tg))
            &&& forall|i: int|
                t0 <= i < t1 ==> ((#[trigger] s2[i]).state matches State::Notified {
                    additional: ad,
                    tag: tg,
                } && ad && cloned(tb, tg))
        }),
{
    let fl0 = flags_of(s0);
    let c0 = count_true(fl0);
    let t0 = promote_target(c0, a, true, s0.len());
    lemma_prefix_characterize(fl0);
    lemma_flags_index(s0);
    lemma_flags_index(s1);
    lemma_flags_index(s2);
    assert forall|i: int| 0 <= i < s1.len() implies (flags_of(s1)[i] <==> i < t0) by {
        if i < c0 {
            assert(s1[i] == s0[i]);
            assert(fl0[i]);
        } else if i < t0 {
            assert(s1[i].state is Notified);
        } else {
            assert(s1[i] == s0[i]);
            assert(!fl0[i]);
        }
    }
    lemma_boundary_count(flags_of(s1), t0);
    let t1 = promote_target(t0, b, true, s1.len());
    assert forall|i: int| 0 <= i < s2.len() implies (flags_of(s2)[i] <==> i < t1) by {
        assert(count_true(flags_of(s1)) == t0);
        if i < t0 {
            assert(s2[i] == s1[i]);
            assert(flags_of(s1)[i]);
            assert(s1[i].state.is_notified_spec());
        } else if i < t1 {
            assert(s2[i].state is Notified);
        } else {
            assert(s2[i] == s1[i]);
            assert(!flags_of(s1)[i]);
        }
    }
    lemma_boundary_count(flags_of(s2), t1);
    assert forall|i: int| c0 <= i < t0 implies s2[i] == s1[i] by {
        assert(!(t0 <= i < t1));
    }
}

/// First-in first-out fairness: a notify call satisfies the earliest
/// unsatisfied waiters, so the satisfied waiters always form a prefix of the
/// insertion order — no waiter is ever satisfied while one inserted earlier
/// remains unsatisfied.
pub proof fn lemma_notify_fifo<T: Clone>(
    s: Seq<Entry<T>>,
    count: nat,
    additional: bool,
    tag: T,
    out: Seq<Entry<T>>,
)
    requires
        is_prefix(flags_of(s)),
        notify_rel(s, count, additional, tag, out),
    ensures
        is_prefix(flags_of(out)),
        count_true(flags_of(out)) == promote_target(
            count_true(flags_of(s)),
            count,
            additional,
            s.len(),
        ),
{
    let c = count_true(flags_of(s));
    let t = promote_target(c, count, additional, s.len());
    lemma_prefix_characterize(flags_of(s));
    lemma_flags_index(s);
    lemma_flags_index(out);
    assert forall|i: int| 0 <= i < out.len() implies (flags_of(out)[i] <==> i < t) by {
        if i < c {
            assert(out[i] == s[i]);
            assert(flags_of(s)[i]);
        } else if i < t {
            assert(out[i].state is Notified);
        } else {
            assert(out[i] == s[i]);
            assert(!flags_of(s)[i]);
        }
    }
    lemma_boundary_count(flags_of(out), t);
}

/// Re-notifying below the limit is idempotent: once at least `k` waiters are
/// notified, a notify call with count `k2 <= k` (counted cumulatively, not
/// "additional") changes nothing.
pub proof fn lemma_notify_idempotent<T: Clone>(
    s: Seq<Entry<T>>,
    k: nat,
    k2: nat,
    tag: T,
    out: Seq<Entry<T>>,
)
    requires
        count_true(flags_of(s)) >= k,
        k2 <= k,
        notify_rel(s, k2, false, tag, out),
    ensures
        out == s,
{
    let c = count_true(flags_of(s));
    assert(promote_target(c, k2, false, s.len()) == c);
    assert(out =~= s);
}

/// The same law at the handle: once at least `n.count` of a handle's
/// waiters are notified, a further notify call with that configuration
/// (cumulative, any fence policy) leaves the waiters and the fallback queue
/// unchanged.
pub proof fn lemma_event_notify_idempotent<T: Clone>(pre: Event<T>, post: Event<T>, n: Notify<T>)
    requires
        pre.wf(),
        pre.is_initialized(),
        !pre.is_held(),
        !n.additional,
        pre.notified_count() >= n.count,
        notify_effect(pre, post, n),
    ensures
        post.listeners() == pre.listeners(),
        post.pending_ops() == pre.pending_ops(),
{
    let i = pre.inner->0;
    assert(boundary_ok(i.list.entries_seq(), i.list.notified_count()));
    lemma_entries_count(pre.listeners(), pre.notified_count());
    lemma_notify_idempotent(
        pre.listeners(),
        pre.notified_count(),
        n.count as nat,
        n.tag,
        post.listeners(),
    );
}

} // verus!
