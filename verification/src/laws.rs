use vstd::prelude::*;

use crate::bus::{
    lemma_idx_of_unique, lemma_publish_preserves_wf, lemma_recv_preserves_wf,
    lemma_subscribe_preserves_wf, lemma_unsubscribe_preserves_wf, publish_model, recv_model,
    sub_step, subscribe_model, unsubscribe_model, BusModel, RecvOutcome,
};
use crate::event::Event;

verus! {

/// The bus after publishing each event of `es`, in order.
pub open spec fn publish_seq_model(v: BusModel, es: Seq<Event>) -> BusModel
    decreases es.len(),
{
    if es.len() == 0 {
        v
    } else {
        publish_seq_model(publish_model(v, es[0]), es.drop_first())
    }
}

/// Law (subscriber locality): how one registry entry evolves under a
/// publish depends on that entry alone — a slow or lagging subscriber
/// never changes what any other subscriber receives, nor what the
/// publisher does.
pub proof fn lemma_publish_pointwise(v: BusModel, e: Event, i: int)
    requires
        0 <= i < v.subs.len(),
    ensures
        publish_model(v, e).subs.len() == v.subs.len(),
        publish_model(v, e).subs[i] == sub_step(v.subs[i], v.capacity, e),
{
}

/// One publish, seen by one registered subscriber: its registry position
/// is stable, and its backlog either takes the event at the back (when
/// there is room) or loses its oldest event, takes the new one, and the
/// subscriber is flagged as lagged.
pub proof fn lemma_publish_delivers(v: BusModel, e: Event, id: u64)
    requires
        v.wf(),
        v.contains_id(id),
    ensures
        ({
            let w = publish_model(v, e);
            &&& w.wf()
            &&& w.contains_id(id)
            &&& w.idx_of(id) == v.idx_of(id)
            &&& v.queue_of(id).len() < v.capacity ==> w.queue_of(id) == v.queue_of(id).push(e)
                && w.lagged_of(id) == v.lagged_of(id)
            &&& v.queue_of(id).len() >= v.capacity ==> w.queue_of(id) == v.queue_of(
                id,
            ).drop_first().push(e) && w.lagged_of(id)
        }),
{
    let w = publish_model(v, e);
    let i = v.idx_of(id);
    assert(v.subs[i].id == id);
    lemma_publish_preserves_wf(v, e);
    assert(w.subs[i] == sub_step(v.subs[i], v.capacity, e));
    lemma_idx_of_unique(w, id, i);
}

/// Law (uniform fan-out, per subscriber): a burst of published events
/// reaches every registered subscriber that has room for it, appended to
/// its backlog in publish order, without raising its lag flag.
pub proof fn lemma_fanout_in_order(v: BusModel, es: Seq<Event>, id: u64)
    requires
        v.wf(),
        v.contains_id(id),
        v.queue_of(id).len() + es.len() <= v.capacity,
    ensures
        ({
            let w = publish_seq_model(v, es);
            &&& w.wf()
            &&& w.contains_id(id)
            &&& w.queue_of(id) == v.queue_of(id) + es
            &&& w.lagged_of(id) == v.lagged_of(id)
        }),
    decreases es.len(),
{
    let w = publish_seq_model(v, es);
    if es.len() == 0 {
        assert(v.queue_of(id) + es =~= v.queue_of(id));
    } else {
        let v1 = publish_model(v, es[0]);
        lemma_publish_delivers(v, es[0], id);
        lemma_fanout_in_order(v1, es.drop_first(), id);
        assert(v.queue_of(id).push(es[0]) + es.drop_first() =~= v.queue_of(id) + es);
    }
}

/// Law (same events, same order, for all): any two subscribers that are
/// registered with an empty backlog before a burst of published events
/// end up with exactly that burst, in publish order — each receives the
/// same events as the other, in the same relative order.
pub proof fn lemma_fanout_same_for_all(v: BusModel, es: Seq<Event>, a: u64, b: u64)
    requires
        v.wf(),
        v.contains_id(a),
        v.contains_id(b),
        v.queue_of(a).len() == 0,
        v.queue_of(b).len() == 0,
        es.len() <= v.capacity,
    ensures
        publish_seq_model(v, es).queue_of(a) == es,
        publish_seq_model(v, es).queue_of(b) == es,
{
    lemma_fanout_in_order(v, es, a);
    lemma_fanout_in_order(v, es, b);
    assert(v.queue_of(a) + es =~= es);
    assert(v.queue_of(b) + es =~= es);
}

/// The bus left behind by `n` successive receives of one subscriber,
/// with the outcomes they returned, in order.
pub open spec fn recv_seq_model(v: BusModel, id: u64, n: nat) -> (BusModel, Seq<RecvOutcome>)
    decreases n,
{
    if n == 0 {
        (v, Seq::empty())
    } else {
        let (v1, r) = recv_model(v, id);
        let (v2, rs) = recv_seq_model(v1, id, (n - 1) as nat);
        (v2, seq![r] + rs)
    }
}

/// Law (delivery order): a subscriber that has not lagged receives its
/// whole backlog by successive receives, one buffered event per receive,
/// oldest first — exactly the events in publish order, none skipped,
/// none repeated.
pub proof fn lemma_drain_in_order(v: BusModel, id: u64)
    requires
        v.wf(),
        v.contains_id(id),
        !v.lagged_of(id),
    ensures
        ({
            let (w, rs) = recv_seq_model(v, id, v.queue_of(id).len());
            &&& rs == v.queue_of(id).map_values(|e: Event| RecvOutcome::Item(e))
            &&& w.contains_id(id)
            &&& w.queue_of(id) == Seq::<Event>::empty()
            &&& !w.lagged_of(id)
        }),
    decreases v.queue_of(id).len(),
{
    let q = v.queue_of(id);
    let i = v.idx_of(id);
    assert(v.subs[i].id == id);
    if q.len() == 0 {
        assert(q.map_values(|e: Event| RecvOutcome::Item(e)) =~= Seq::<RecvOutcome>::empty());
    } else {
        let (v1, r) = recv_model(v, id);
        lemma_recv_preserves_wf(v, id);
        assert(v1.subs[i].id == id);
        lemma_idx_of_unique(v1, id, i);
        assert(v1.queue_of(id) == q.drop_first());
        lemma_drain_in_order(v1, id);
        assert(seq![RecvOutcome::Item(q[0])] + q.drop_first().map_values(
            |e: Event| RecvOutcome::Item(e),
        ) =~= q.map_values(|e: Event| RecvOutcome::Item(e)));
    }
}

/// Law (no replay): a subscriber registered after one event and before
/// the next starts with an empty backlog — nothing published earlier is
/// ever handed to it — and the first event published after registration
/// is delivered to it.
pub proof fn lemma_no_replay(v: BusModel, e2: Event)
    requires
        v.wf(),
        v.next_id < u64::MAX,
    ensures
        ({
            let v1 = subscribe_model(v);
            let id = v.next_id as u64;
            &&& v1.contains_id(id)
            &&& v1.queue_of(id) == Seq::<Event>::empty()
            &&& publish_model(v1, e2).queue_of(id) == seq![e2]
        }),
{
    let v1 = subscribe_model(v);
    let id = v.next_id as u64;
    lemma_subscribe_preserves_wf(v);
    lemma_idx_of_unique(v1, id, v.subs.len() as int);
    lemma_publish_delivers(v1, e2, id);
    assert(Seq::<Event>::empty().push(e2) =~= seq![e2]);
}

/// Law (publish to nobody is a silent no-op): with zero registered
/// subscribers the event is discarded, nothing changes and no error
/// arises, whatever the event holds; the publisher is never made to
/// wait.
pub proof fn lemma_publish_no_subscribers(v: BusModel, e: Event)
    requires
        v.subs.len() == 0,
    ensures
        publish_model(v, e) == v,
{
    assert(publish_model(v, e).subs =~= v.subs);
    assert(publish_model(v, e) =~= v);
}

/// Law (overflow policy): publishing to a subscriber whose backlog is
/// full costs that subscriber its oldest buffered event — the backlog
/// stays at the bound, the publisher is not delayed — and raises its lag
/// flag, so its next receive reports the gap as a distinguishable
/// outcome before delivery resumes from what is still buffered.
pub proof fn lemma_lag_policy(v: BusModel, e: Event, id: u64)
    requires
        v.wf(),
        v.contains_id(id),
        v.queue_of(id).len() == v.capacity,
    ensures
        ({
            let w = publish_model(v, e);
            &&& w.queue_of(id) == v.queue_of(id).drop_first().push(e)
            &&& w.queue_of(id).len() == v.capacity
            &&& w.lagged_of(id)
            &&& recv_model(w, id).1 == RecvOutcome::Lagged
            &&& recv_model(w, id).0.queue_of(id) == w.queue_of(id)
            &&& !recv_model(w, id).0.lagged_of(id)
        }),
{
    let w = publish_model(v, e);
    lemma_publish_delivers(v, e, id);
    let i = w.idx_of(id);
    assert(w.subs[i].id == id);
    lemma_recv_preserves_wf(w, id);
    let r0 = recv_model(w, id).0;
    assert(r0.subs[i].id == id);
    lemma_idx_of_unique(r0, id, i);
}

/// Law (deregistration isolation): once subscriber `a` is deregistered,
/// a publish delivers nothing to `a` — it is out of the registry, before
/// and after the publish — while every other subscriber `b` is untouched
/// by the deregistration and still receives the event as usual.
pub proof fn lemma_deregister_then_publish(v: BusModel, e: Event, a: u64, b: u64)
    requires
        v.wf(),
        v.contains_id(a),
        v.contains_id(b),
        a != b,
    ensures
        ({
            let v1 = unsubscribe_model(v, a);
            let w = publish_model(v1, e);
            &&& !v1.contains_id(a)
            &&& !w.contains_id(a)
            &&& v1.contains_id(b)
            &&& v1.queue_of(b) == v.queue_of(b)
            &&& w.contains_id(b)
            &&& v.queue_of(b).len() < v.capacity ==> w.queue_of(b) == v.queue_of(b).push(e)
            &&& v.queue_of(b).len() >= v.capacity ==> w.queue_of(b) == v.queue_of(
                b,
            ).drop_first().push(e)
        }),
{
    let v1 = unsubscribe_model(v, a);
    let w = publish_model(v1, e);
    let ia = v.idx_of(a);
    let ib = v.idx_of(b);
    assert(v.subs[ia].id == a);
    assert(v.subs[ib].id == b);
    lemma_unsubscribe_preserves_wf(v, a);
    assert(v1.subs =~= v.subs.remove(ia));
    assert(!v1.contains_id(a)) by {
        if v1.contains_id(a) {
            let j = v1.idx_of(a);
            assert(v1.subs[j].id == a);
            if j < ia {
                assert(v1.subs[j] == v.subs[j]);
                assert(v.subs[j].id != v.subs[ia].id);
            } else {
                assert(v1.subs[j] == v.subs[j + 1]);
                assert(v.subs[ia].id != v.subs[j + 1].id);
            }
        }
    }
    let ib1: int = if ib < ia {
        ib
    } else {
        ib - 1
    };
    assert(v1.subs[ib1] == v.subs[ib]);
    lemma_idx_of_unique(v1, b, ib1);
    lemma_publish_delivers(v1, e, b);
    assert(!w.contains_id(a)) by {
        if w.contains_id(a) {
            let j = w.idx_of(a);
            assert(w.subs[j] == sub_step(v1.subs[j], v1.capacity, e));
            assert(v1.subs[j].id == a);
            assert(v1.contains_id(a));
        }
    }
}

} // verus!
