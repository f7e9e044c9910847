//! The deterministic event-scheduling engine: a pending-event queue, the
//! logical clock, and the seeded random stream.
//!
//! Events are delivered in ascending time order; events that share a time
//! leave in the order they were enqueued.  The engine's entire state is a
//! function of the seed and of the operations applied to it.

use vstd::prelude::*;

use crate::event::{ActorId, EvView, SysEvent};
use crate::rng::RandomStream;

verus! {

/// `a + b`, saturating at the largest representable time instead of
/// wrapping: times and counters stop at the horizon, they never go back.
pub open spec fn sat_add(a: u64, b: u64) -> u64 {
    if a + b <= u64::MAX {
        (a + b) as u64
    } else {
        u64::MAX
    }
}

/// A pending scheduled event: delivery time, source, destination, payload.
pub struct Entry<M> {
    pub time: u64,
    pub src: ActorId,
    pub dest: ActorId,
    pub payload: SysEvent<M>,
}

/// The view of an [`Entry`].
#[verifier::ext_equal]
pub struct EntryView<M> {
    pub time: u64,
    pub src: Seq<char>,
    pub dest: Seq<char>,
    pub payload: EvView<M>,
}

impl<M> View for Entry<M> {
    type V = EntryView<M>;

    open spec fn view(&self) -> EntryView<M> {
        EntryView { time: self.time, src: self.src@, dest: self.dest@, payload: self.payload@ }
    }
}

/// The mathematical state of a [`Simulation`]: the clock, the pending queue
/// in insertion order, and the random stream as its seed and draw history.
#[verifier::ext_equal]
pub struct SimView<M> {
    pub time: u64,
    pub queue: Seq<EntryView<M>>,
    pub seed: u64,
    pub draws: Seq<(u64, u64)>,
}

/// `i` is the index the queue delivers next: its time is minimal, and it is
/// the first entry with that time.
pub open spec fn is_earliest<M>(q: Seq<EntryView<M>>, i: int) -> bool {
    &&& 0 <= i < q.len()
    &&& forall|j: int| 0 <= j < q.len() ==> q[i].time <= #[trigger] q[j].time
    &&& forall|j: int| 0 <= j < i ==> q[i].time < #[trigger] q[j].time
}

/// The index the queue delivers next (meaningful only when the queue is
/// non-empty; it is then unique).
pub open spec fn earliest_index<M>(q: Seq<EntryView<M>>) -> int {
    choose|i: int| is_earliest(q, i)
}

/// Two indices that both qualify as earliest are the same index.
pub proof fn lemma_earliest_unique<M>(q: Seq<EntryView<M>>, i: int, j: int)
    requires
        is_earliest(q, i),
        is_earliest(q, j),
    ensures
        i == j,
{
    if i < j {
        assert(q[j].time < q[i].time);
    }
    if j < i {
        assert(q[i].time < q[j].time);
    }
}

/// What enqueueing does to the state: one entry appended, scheduled at the
/// current time plus the delay (saturating).
pub open spec fn add_event_spec<M>(
    v: SimView<M>,
    payload: EvView<M>,
    src: Seq<char>,
    dest: Seq<char>,
    delay: u64,
) -> SimView<M> {
    SimView {
        queue: v.queue.push(
            EntryView { time: sat_add(v.time, delay), src: src, dest: dest, payload: payload },
        ),
        ..v
    }
}

/// What removing the next event does to the state: the clock advances to the
/// entry's time and the entry leaves the queue.  On an empty queue nothing
/// changes and nothing is returned.
pub open spec fn pop_spec<M>(v: SimView<M>) -> (SimView<M>, Option<EntryView<M>>) {
    if v.queue.len() == 0 {
        (v, None)
    } else {
        let i = earliest_index(v.queue);
        (
            SimView { time: v.queue[i].time, queue: v.queue.remove(i), ..v },
            Some(v.queue[i]),
        )
    }
}

/// The engine: logical clock, pending events, the seed it was built from,
/// and the seeded random stream.
pub struct Simulation<M> {
    pub time: u64,
    pub queue: Vec<Entry<M>>,
    pub seed: u64,
    pub rng: RandomStream,
}

impl<M> View for Simulation<M> {
    type V = SimView<M>;

    open spec fn view(&self) -> SimView<M> {
        SimView {
            time: self.time,
            queue: self.queue@.map_values(|e: Entry<M>| e@),
            seed: self.seed,
            draws: self.rng.history(),
        }
    }
}

/// No pending event lies in the clock's past.
pub open spec fn sim_wf<M>(v: SimView<M>) -> bool {
    forall|i: int| 0 <= i < v.queue.len() ==> v.time <= #[trigger] v.queue[i].time
}

impl<M> Simulation<M> {
    /// No pending event lies in the clock's past, and the recorded seed is
    /// the one the random stream was built from.
    pub open spec fn wf(&self) -> bool {
        sim_wf(self@) && self.seed == self.rng.seed()
    }

    /// A fresh engine: clock at zero, empty queue, stream seeded with `seed`.
    pub fn new(seed: u64) -> (r: Simulation<M>)
        ensures
            r.wf(),
            r@ == (SimView::<M> {
                time: 0,
                queue: Seq::empty(),
                seed: seed,
                draws: Seq::empty(),
            }),
    {
        let r = Simulation { time: 0, queue: Vec::new(), seed, rng: RandomStream::new(seed) };
        proof {
            assert(r@.queue =~= Seq::<EntryView<M>>::empty());
            assert(r@ =~= (SimView::<M> {
                time: 0,
                queue: Seq::empty(),
                seed: seed,
                draws: Seq::empty(),
            }));
        }
        r
    }

    /// The current logical time.
    pub fn time(&self) -> (r: u64)
        ensures
            r == self@.time,
    {
        self.time
    }

    /// How many events are pending.
    pub fn pending_count(&self) -> (r: usize)
        ensures
            r == self@.queue.len(),
    {
        self.queue.len()
    }

    /// Enqueues an event at `current time + delay` behind every entry already
    /// queued, so that entries sharing a time keep their insertion order.
    pub fn add_event(&mut self, payload: SysEvent<M>, src: ActorId, dest: ActorId, delay: u64)
        requires
            old(self).wf(),
        ensures
            final(self).wf(),
            final(self)@ == add_event_spec(old(self)@, payload@, src@, dest@, delay),
    {
        let time = if delay <= u64::MAX - self.time {
            self.time + delay
        } else {
            u64::MAX
        };
        self.queue.push(Entry { time, src, dest, payload });
        proof {
            assert(final(self)@.queue =~= add_event_spec(
                old(self)@,
                payload@,
                src@,
                dest@,
                delay,
            ).queue);
            assert(final(self)@ =~= add_event_spec(old(self)@, payload@, src@, dest@, delay));
        }
    }

    /// Removes and returns the next event, advancing the clock to its time;
    /// returns nothing and changes nothing when the queue is empty.
    pub fn step_pop(&mut self) -> (r: Option<Entry<M>>)
        requires
            old(self).wf(),
        ensures
            final(self).wf(),
            old(self)@.time <= final(self)@.time,
            final(self)@ == pop_spec(old(self)@).0,
            (match r {
                Option::None => Option::<EntryView<M>>::None,
                Option::Some(e) => Option::Some(e@),
            }) == pop_spec(old(self)@).1,
            r is None <==> old(self)@.queue.len() == 0,
    {
        if self.queue.len() == 0 {
            proof {
                assert(final(self)@ =~= old(self)@);
            }
            return None;
        }
        let ghost q = self@.queue;
        let mut best: usize = 0;
        let mut i: usize = 1;
        while i < self.queue.len()
            invariant
                self == old(self),
                q == self@.queue,
                0 < i <= q.len(),
                0 <= best < i,
                forall|j: int| 0 <= j < i ==> q[best as int].time <= #[trigger] q[j].time,
                forall|j: int| 0 <= j < best ==> q[best as int].time < #[trigger] q[j].time,
            decreases q.len() - i,
        {
            if self.queue[i].time < self.queue[best].time {
                best = i;
            }
            i += 1;
        }
        proof {
            assert(is_earliest(q, best as int));
            lemma_earliest_unique(q, best as int, earliest_index(q));
        }
        let e = self.queue.remove(best);
        self.time = e.time;
        proof {
            assert(final(self)@.queue =~= pop_spec(old(self)@).0.queue);
            assert(final(self)@ =~= pop_spec(old(self)@).0);
        }
        Some(e)
    }

    /// The event that [`Simulation::step_pop`] would deliver next, without
    /// removing it or advancing the clock.
    pub fn peek_earliest(&self) -> (r: Option<&Entry<M>>)
        ensures
            match r {
                Option::None => self@.queue.len() == 0,
                Option::Some(e) => self@.queue.len() > 0 && e@ == self@.queue[earliest_index(
                    self@.queue,
                )],
            },
    {
        if self.queue.len() == 0 {
            return None;
        }
        let ghost q = self@.queue;
        let mut best: usize = 0;
        let mut i: usize = 1;
        while i < self.queue.len()
            invariant
                q == self@.queue,
                0 < i <= q.len(),
                0 <= best < i,
                forall|j: int| 0 <= j < i ==> q[best as int].time <= #[trigger] q[j].time,
                forall|j: int| 0 <= j < best ==> q[best as int].time < #[trigger] q[j].time,
            decreases q.len() - i,
        {
            if self.queue[i].time < self.queue[best].time {
                best = i;
            }
            i += 1;
        }
        proof {
            assert(is_earliest(q, best as int));
            lemma_earliest_unique(q, best as int, earliest_index(q));
        }
        Some(&self.queue[best])
    }

    /// Drains and returns every event still pending, oldest insertion first:
    /// the messages that were scheduled but never processed.
    pub fn read_undelivered_events(&mut self) -> (r: Vec<Entry<M>>)
        requires
            old(self).wf(),
        ensures
            final(self).wf(),
            r@.map_values(|e: Entry<M>| e@) == old(self)@.queue,
            final(self)@ == (SimView { queue: Seq::empty(), ..old(self)@ }),
    {
        let mut r: Vec<Entry<M>> = Vec::new();
        r.append(&mut self.queue);
        proof {
            assert(r@.map_values(|e: Entry<M>| e@) =~= old(self)@.queue);
            assert(final(self)@.queue =~= Seq::<EntryView<M>>::empty());
            assert(final(self)@ =~= (SimView { queue: Seq::empty(), ..old(self)@ }));
        }
        r
    }
}

} // verus!
