use vstd::prelude::*;

use crate::event::Event;

verus! {

// ---------------------------------------------------------------------------
// Mathematical model
// ---------------------------------------------------------------------------

/// Model of one registered subscriber: its identity, its backlog of
/// undelivered events (oldest first), and whether it has overflowed since
/// it last received.
#[verifier::ext_equal]
pub struct SubModel {
    pub id: u64,
    pub queue: Seq<Event>,
    pub lagged: bool,
}

/// Model of the whole bus: the per-subscriber backlog bound, the shutdown
/// flag, the next fresh subscriber identity, and the registry of current
/// subscribers in registration order.
#[verifier::ext_equal]
pub struct BusModel {
    pub capacity: int,
    pub closed: bool,
    pub next_id: int,
    pub subs: Seq<SubModel>,
}

impl BusModel {
    /// Well-formedness: a positive backlog bound, pairwise distinct
    /// subscriber identities, every identity below the next fresh one, and
    /// no backlog beyond the bound.
    pub open spec fn wf(self) -> bool {
        &&& self.capacity >= 1
        &&& self.next_id >= 0
        &&& forall|i: int, j: int|
            0 <= i < j < self.subs.len() ==> self.subs[i].id != self.subs[j].id
        &&& forall|i: int|
            0 <= i < self.subs.len() ==> #[trigger] self.subs[i].id < self.next_id
        &&& forall|i: int|
            0 <= i < self.subs.len() ==> #[trigger] self.subs[i].queue.len() <= self.capacity
    }

    /// Whether a subscriber with this identity is currently registered.
    pub open spec fn contains_id(self, id: u64) -> bool {
        exists|i: int| 0 <= i < self.subs.len() && #[trigger] self.subs[i].id == id
    }

    /// The registry position of the subscriber with this identity
    /// (meaningful only when `contains_id(id)` and identities are distinct).
    pub open spec fn idx_of(self, id: u64) -> int {
        choose|i: int| 0 <= i < self.subs.len() && #[trigger] self.subs[i].id == id
    }

    /// The backlog of the subscriber with this identity.
    pub open spec fn queue_of(self, id: u64) -> Seq<Event> {
        self.subs[self.idx_of(id)].queue
    }

    /// Whether the subscriber with this identity has overflowed since it
    /// last received.
    pub open spec fn lagged_of(self, id: u64) -> bool {
        self.subs[self.idx_of(id)].lagged
    }
}

/// How one published event lands in one subscriber's backlog: appended when
/// there is room; otherwise the oldest buffered event is dropped to make
/// room and the subscriber is flagged as lagged. The publisher is never
/// asked to wait.
pub open spec fn sub_step(s: SubModel, capacity: int, e: Event) -> SubModel {
    if s.queue.len() < capacity {
        SubModel { queue: s.queue.push(e), ..s }
    } else {
        SubModel { queue: s.queue.drop_first().push(e), lagged: true, ..s }
    }
}

/// The bus after publishing one event: every registered subscriber's
/// backlog takes the event by `sub_step`; registry, bound, shutdown flag
/// and identities are untouched.
pub open spec fn publish_model(v: BusModel, e: Event) -> BusModel {
    BusModel { subs: v.subs.map_values(|s: SubModel| sub_step(s, v.capacity, e)), ..v }
}

/// The bus after registering one new subscriber: it is appended with the
/// next fresh identity, an empty backlog (no replay of history), and no
/// lag flag.
pub open spec fn subscribe_model(v: BusModel) -> BusModel {
    BusModel {
        next_id: v.next_id + 1,
        subs: v.subs.push(
            SubModel { id: v.next_id as u64, queue: Seq::empty(), lagged: false },
        ),
        ..v
    }
}

/// The bus after deregistering the subscriber with this identity: its
/// entry is removed and every other entry is untouched, in order. Unknown
/// identities leave the bus unchanged.
pub open spec fn unsubscribe_model(v: BusModel, id: u64) -> BusModel {
    if v.contains_id(id) {
        BusModel { subs: v.subs.remove(v.idx_of(id)), ..v }
    } else {
        v
    }
}

/// The bus after shutdown: subscribers drain what is buffered and then
/// observe the closed signal.
pub open spec fn close_model(v: BusModel) -> BusModel {
    BusModel { closed: true, ..v }
}

/// What one receive by the subscriber with this identity returns, and the
/// bus it leaves behind. A pending lag flag is reported first (and
/// cleared); then buffered events come out oldest first; an empty backlog
/// reports the shutdown signal on a closed bus and "nothing yet"
/// otherwise.
pub open spec fn recv_model(v: BusModel, id: u64) -> (BusModel, RecvOutcome) {
    let i = v.idx_of(id);
    let s = v.subs[i];
    if s.lagged {
        (
            BusModel { subs: v.subs.update(i, SubModel { lagged: false, ..s }), ..v },
            RecvOutcome::Lagged,
        )
    } else if s.queue.len() > 0 {
        (
            BusModel { subs: v.subs.update(i, SubModel { queue: s.queue.drop_first(), ..s }), ..v },
            RecvOutcome::Item(s.queue[0]),
        )
    } else if v.closed {
        (v, RecvOutcome::Closed)
    } else {
        (v, RecvOutcome::Empty)
    }
}

/// With distinct identities, any position holding `id` is the position
/// `idx_of(id)` picks.
pub proof fn lemma_idx_of_unique(v: BusModel, id: u64, i: int)
    requires
        v.wf(),
        0 <= i < v.subs.len(),
        v.subs[i].id == id,
    ensures
        v.contains_id(id),
        v.idx_of(id) == i,
{
    assert(v.contains_id(id));
    let j = v.idx_of(id);
    if i < j {
        assert(v.subs[i].id != v.subs[j].id);
    } else if j < i {
        assert(v.subs[j].id != v.subs[i].id);
    }
}

/// Publishing keeps the bus well-formed: identities are untouched and no
/// backlog grows beyond the bound.
pub proof fn lemma_publish_preserves_wf(v: BusModel, e: Event)
    requires
        v.wf(),
    ensures
        publish_model(v, e).wf(),
{
    let w = publish_model(v, e);
    assert forall|i: int| 0 <= i < w.subs.len() implies #[trigger] w.subs[i].queue.len()
        <= w.capacity by {
        assert(w.subs[i] == sub_step(v.subs[i], v.capacity, e));
    }
    assert forall|i: int| 0 <= i < w.subs.len() implies #[trigger] w.subs[i].id < w.next_id by {
        assert(w.subs[i] == sub_step(v.subs[i], v.capacity, e));
    }
    assert forall|i: int, j: int| 0 <= i < j < w.subs.len() implies w.subs[i].id
        != w.subs[j].id by {
        assert(w.subs[i] == sub_step(v.subs[i], v.capacity, e));
        assert(w.subs[j] == sub_step(v.subs[j], v.capacity, e));
    }
}

/// Registering keeps the bus well-formed: the new identity is fresh, and
/// the new backlog is empty.
pub proof fn lemma_subscribe_preserves_wf(v: BusModel)
    requires
        v.wf(),
        v.next_id < u64::MAX,
    ensures
        subscribe_model(v).wf(),
{
}

/// Deregistering keeps the bus well-formed: the remaining entries are a
/// subsequence of the old ones.
pub proof fn lemma_unsubscribe_preserves_wf(v: BusModel, id: u64)
    requires
        v.wf(),
    ensures
        unsubscribe_model(v, id).wf(),
{
}

/// Receiving keeps the bus well-formed: it only clears a flag or shortens
/// one backlog.
pub proof fn lemma_recv_preserves_wf(v: BusModel, id: u64)
    requires
        v.wf(),
        v.contains_id(id),
    ensures
        recv_model(v, id).0.wf(),
{
}

// ---------------------------------------------------------------------------
// Outcomes
// ---------------------------------------------------------------------------

/// What one receive on a subscriber handle yields.
#[derive(Clone, Copy, PartialEq, Eq, Debug)]
pub enum RecvOutcome {
    /// The next buffered event, oldest first.
    Item(Event),
    /// The subscriber overflowed since it last received: events were
    /// dropped, and the gap is being reported exactly once.
    Lagged,
    /// Nothing is buffered right now; more events may still arrive.
    Empty,
    /// Nothing is buffered and the bus has shut down: no event will ever
    /// arrive again. Terminal for this subscriber.
    Closed,
}

// ---------------------------------------------------------------------------
// Executable bus
// ---------------------------------------------------------------------------

struct SubEntry {
    id: u64,
    queue: Vec<Event>,
    lagged: bool,
}

impl View for SubEntry {
    type V = SubModel;

    closed spec fn view(&self) -> SubModel {
        SubModel { id: self.id, queue: self.queue@, lagged: self.lagged }
    }
}

/// The fan-out bus: a registry of subscribers, each with its own bounded
/// backlog of undelivered events.
///
/// Publishing delivers to every registered subscriber without ever
/// waiting on one; a subscriber that falls behind its backlog bound loses
/// the oldest buffered events and is told so the next time it receives.
pub struct Bus {
    capacity: usize,
    closed: bool,
    next_id: u64,
    subs: Vec<SubEntry>,
}

impl View for Bus {
    type V = BusModel;

    closed spec fn view(&self) -> BusModel {
        BusModel {
            capacity: self.capacity as int,
            closed: self.closed,
            next_id: self.next_id as int,
            subs: self.subs@.map_values(|s: SubEntry| s@),
        }
    }
}

impl Bus {
    #[verifier::type_invariant]
    spec fn inv(self) -> bool {
        self@.wf()
    }

    /// A fresh bus with no subscribers, accepting up to `capacity`
    /// undelivered events per subscriber.
    pub fn new(capacity: usize) -> (bus: Bus)
        requires
            capacity >= 1,
        ensures
            bus@ == (BusModel {
                capacity: capacity as int,
                closed: false,
                next_id: 0,
                subs: Seq::empty(),
            }),
    {
        let bus = Bus { capacity, closed: false, next_id: 0, subs: Vec::new() };
        proof {
            assert(bus@.subs =~= Seq::<SubModel>::empty());
        }
        bus
    }

    /// Publishes one event: it is appended to the backlog of every
    /// subscriber registered at the moment of the call. With no
    /// subscribers it is discarded without error. A full backlog loses
    /// its oldest event and the subscriber is flagged as lagged; the
    /// caller is never made to wait on any subscriber.
    pub fn publish(&mut self, e: Event)
        ensures
            final(self)@ == publish_model(old(self)@, e),
    {
        proof {
            use_type_invariant(&*self);
        }
        let ghost v0 = self@;
        let capacity = self.capacity;
        let mut subs: Vec<SubEntry> = Vec::new();
        std::mem::swap(&mut subs, &mut self.subs);
        let ghost orig = subs@;
        let n = subs.len();
        let mut i: usize = 0;
        while i < n
            invariant
                v0.wf(),
                i <= n,
                n == orig.len(),
                subs@.len() == n,
                capacity as int == v0.capacity,
                orig.map_values(|s: SubEntry| s@) == v0.subs,
                forall|j: int| 0 <= j < i ==> #[trigger] subs@[j]@ == sub_step(v0.subs[j], v0.capacity, e),
                forall|j: int| i <= j < n ==> #[trigger] subs@[j] == orig[j],
            decreases n - i,
        {
            let mut entry = subs.remove(i);
            proof {
                assert(entry == orig[i as int]);
                assert(entry@ == v0.subs[i as int]);
                assert(entry@.queue.len() <= v0.capacity);
            }
            if entry.queue.len() < capacity {
                entry.queue.push(e);
            } else {
                entry.queue.remove(0);
                entry.queue.push(e);
                entry.lagged = true;
            }
            proof {
                assert(entry@ == sub_step(v0.subs[i as int], v0.capacity, e));
            }
            subs.insert(i, entry);
            i = i + 1;
        }
        proof {
            lemma_publish_preserves_wf(v0, e);
            assert(subs@.map_values(|s: SubEntry| s@) =~= publish_model(v0, e).subs);
        }
        std::mem::swap(&mut subs, &mut self.subs);
        proof {
            assert(self@ =~= publish_model(v0, e));
        }
    }

    /// Registers a new subscriber and returns its identity. The new
    /// subscriber starts with an empty backlog: it will see events
    /// published after this call and none published before it.
    ///
    /// The bound on the fresh-identity counter is a machine limit; see
    /// [`Bus::can_subscribe`].
    pub fn subscribe(&mut self) -> (id: u64)
        requires
            old(self)@.next_id < u64::MAX,
        ensures
            final(self)@ == subscribe_model(old(self)@),
            id as int == old(self)@.next_id,
    {
        proof {
            use_type_invariant(&*self);
            lemma_subscribe_preserves_wf(old(self)@);
        }
        let ghost v0 = self@;
        let id = self.next_id;
        self.next_id = self.next_id + 1;
        let mut subs: Vec<SubEntry> = Vec::new();
        std::mem::swap(&mut subs, &mut self.subs);
        subs.push(SubEntry { id, queue: Vec::new(), lagged: false });
        proof {
            assert(subs@.map_values(|s: SubEntry| s@) =~= subscribe_model(v0).subs);
        }
        std::mem::swap(&mut subs, &mut self.subs);
        proof {
            assert(self@ =~= subscribe_model(v0));
        }
        id
    }

    /// Whether another subscriber can still be registered: false only
    /// once the fresh-identity counter is exhausted, which a caller that
    /// registers one subscriber per connection will never see.
    pub fn can_subscribe(&self) -> (r: bool)
        ensures
            r == (self@.next_id < u64::MAX),
    {
        self.next_id < u64::MAX
    }

    /// Shuts the bus down: no further event will be delivered to anyone.
    /// Each subscriber still drains what is buffered and then observes
    /// the closed signal.
    pub fn close(&mut self)
        ensures
            final(self)@ == close_model(old(self)@),
    {
        proof {
            use_type_invariant(&*self);
            assert((BusModel { closed: true, ..self@ }).wf());
        }
        self.closed = true;
        proof {
            assert(self@ =~= close_model(old(self)@));
        }
    }

    /// The registry position of the subscriber with identity `id`, if
    /// it is registered.
    fn find(&self, id: u64) -> (r: Option<usize>)
        ensures
            (match r {
                Some(i) => i < self@.subs.len() && self@.subs[i as int].id == id,
                None => forall|j: int|
                    0 <= j < self@.subs.len() ==> #[trigger] self@.subs[j].id != id,
            }),
    {
        let n = self.subs.len();
        let mut j: usize = 0;
        while j < n
            invariant
                j <= n,
                n == self.subs@.len(),
                forall|k: int| 0 <= k < j ==> #[trigger] self@.subs[k].id != id,
            decreases n - j,
        {
            if self.subs[j].id == id {
                return Some(j);
            }
            j = j + 1;
        }
        None
    }

    /// Whether the subscriber with identity `id` is currently
    /// registered.
    pub fn is_subscribed(&self, id: u64) -> (r: bool)
        ensures
            r == self@.contains_id(id),
    {
        match self.find(id) {
            Some(i) => {
                proof {
                    assert(self@.subs[i as int].id == id);
                }
                true
            },
            None => {
                proof {
                    assert(!self@.contains_id(id)) by {
                        if self@.contains_id(id) {
                            let w = choose|w: int|
                                0 <= w < self@.subs.len() && #[trigger] self@.subs[w].id == id;
                            assert(self@.subs[w].id != id);
                        }
                    }
                }
                false
            },
        }
    }

    /// One receive by the subscriber with identity `id`. A pending lag
    /// flag is reported first, as [`RecvOutcome::Lagged`], exactly once
    /// per overflow streak; then buffered events come out oldest first;
    /// with nothing buffered the outcome is [`RecvOutcome::Closed`] on a
    /// shut-down bus (terminal) and [`RecvOutcome::Empty`] otherwise.
    /// Never waits.
    pub fn recv(&mut self, id: u64) -> (r: RecvOutcome)
        requires
            old(self)@.contains_id(id),
        ensures
            final(self)@ == recv_model(old(self)@, id).0,
            r == recv_model(old(self)@, id).1,
    {
        proof {
            use_type_invariant(&*self);
        }
        let ghost v0 = self@;
        // The None arm is unreachable: `id` is registered.
        let i: usize = match self.find(id) {
            Some(k) => k,
            None => {
                proof {
                    let w = choose|w: int|
                        0 <= w < v0.subs.len() && #[trigger] v0.subs[w].id == id;
                    assert(v0.subs[w].id != id);
                }
                0
            },
        };
        proof {
            lemma_idx_of_unique(v0, id, i as int);
            lemma_recv_preserves_wf(v0, id);
        }
        let mut subs: Vec<SubEntry> = Vec::new();
        std::mem::swap(&mut subs, &mut self.subs);
        let mut entry = subs.remove(i);
        let r: RecvOutcome;
        if entry.lagged {
            entry.lagged = false;
            r = RecvOutcome::Lagged;
        } else if entry.queue.len() > 0 {
            let ev = entry.queue.remove(0);
            r = RecvOutcome::Item(ev);
        } else if self.closed {
            r = RecvOutcome::Closed;
        } else {
            r = RecvOutcome::Empty;
        }
        subs.insert(i, entry);
        proof {
            assert(subs@.map_values(|s: SubEntry| s@) =~= recv_model(v0, id).0.subs);
        }
        std::mem::swap(&mut subs, &mut self.subs);
        proof {
            assert(self@ =~= recv_model(v0, id).0);
        }
        r
    }

    /// Deregisters the subscriber with identity `id`; its backlog is
    /// discarded and every other subscriber is untouched. Unknown
    /// identities are ignored, so releasing a registration twice is
    /// harmless.
    pub fn unsubscribe(&mut self, id: u64)
        ensures
            final(self)@ == unsubscribe_model(old(self)@, id),
    {
        proof {
            use_type_invariant(&*self);
        }
        let ghost v0 = self@;
        match self.find(id) {
            Some(i) => {
                proof {
                    lemma_idx_of_unique(v0, id, i as int);
                    lemma_unsubscribe_preserves_wf(v0, id);
                }
                let mut subs: Vec<SubEntry> = Vec::new();
                std::mem::swap(&mut subs, &mut self.subs);
                subs.remove(i);
                proof {
                    assert(subs@.map_values(|s: SubEntry| s@) =~= unsubscribe_model(
                        v0,
                        id,
                    ).subs);
                }
                std::mem::swap(&mut subs, &mut self.subs);
                proof {
                    assert(self@ =~= unsubscribe_model(v0, id));
                }
            },
            None => {
                proof {
                    assert(!v0.contains_id(id)) by {
                        if v0.contains_id(id) {
                            let w = choose|w: int|
                                0 <= w < v0.subs.len() && #[trigger] v0.subs[w].id == id;
                            assert(v0.subs[w].id != id);
                        }
                    }
                }
            },
        }
    }

    /// The per-subscriber backlog bound this bus was built with.
    pub fn capacity(&self) -> (c: usize)
        ensures
            c as int == self@.capacity,
    {
        self.capacity
    }

    /// Whether the bus has been shut down.
    pub fn is_closed(&self) -> (c: bool)
        ensures
            c == self@.closed,
    {
        self.closed
    }

    /// How many subscribers are currently registered.
    pub fn subscriber_count(&self) -> (n: usize)
        ensures
            n as int == self@.subs.len(),
    {
        self.subs.len()
    }

    /// Whether anyone is listening. A publisher may check this before
    /// building an expensive event; with no subscribers the event would
    /// be discarded anyway.
    pub fn has_subscribers(&self) -> (r: bool)
        ensures
            r == (self@.subs.len() > 0),
    {
        self.subs.len() > 0
    }
}

} // verus!
