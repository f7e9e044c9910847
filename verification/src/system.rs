//! The orchestrator: the façade that owns the engine, the network model and
//! the node adapters, and exposes registration, fault configuration,
//! message injection and stepping to the caller.

use vstd::prelude::*;

use crate::event::{ActorId, EvView, LocalEvent, Payload, SysEvent};
use crate::net::{
    add_id, add_link, default_net, deliver_spec, disable_between_groups, id_views, net_filtered,
    net_wf, remove_id, remove_link, str_eq, strs_views, NetView, Network,
};
use crate::net::net_deliver;
use crate::node::{
    crash_spec, dispatch, dispatch_spec, lemma_apply_actions_frame_for_dispatch, net_addr,
    ActorView, Node, NodeActor,
};
use crate::rng::random_seed;
use crate::sim::{
    add_event_spec, earliest_index, sat_add, sim_wf, Entry, SimView, Simulation,
};
use crate::RATE_SCALE;

verus! {

/// The views of the adapter list.
pub open spec fn actor_views<M, N>(s: Seq<NodeActor<M, N>>) -> Seq<ActorView<M, N>> {
    s.map_values(|a: NodeActor<M, N>| a@)
}

/// The identifiers of the adapters, in registration order.
pub open spec fn actor_ids<M, N>(s: Seq<ActorView<M, N>>) -> Seq<Seq<char>> {
    s.map_values(|a: ActorView<M, N>| a.id)
}

/// Whether a node with identifier `id` is registered.
pub open spec fn registered<M, N>(s: Seq<ActorView<M, N>>, id: Seq<char>) -> bool {
    actor_ids(s).contains(id)
}

/// The position of the registered node `id` (unique under [`ids_unique`]).
pub open spec fn actor_index<M, N>(s: Seq<ActorView<M, N>>, id: Seq<char>) -> int {
    choose|i: int| 0 <= i < s.len() && s[i].id == id
}

/// No two adapters share an identifier.
pub open spec fn ids_unique<M, N>(s: Seq<ActorView<M, N>>) -> bool {
    forall|i: int, j: int| 0 <= i < j < s.len() ==> #[trigger] s[i].id != #[trigger] s[j].id
}

/// The mathematical state of a [`System`].
#[verifier::ext_equal]
pub struct SysView<M, N> {
    pub sim: SimView<M>,
    pub net: NetView,
    pub actors: Seq<ActorView<M, N>>,
}

/// The state of a freshly constructed system under the given seed.
pub open spec fn init_view<M, N>(seed: u64) -> SysView<M, N> {
    SysView {
        sim: SimView { time: 0, queue: Seq::empty(), seed: seed, draws: Seq::empty() },
        net: default_net(),
        actors: Seq::empty(),
    }
}

/// The system's structural invariant: the engine and the network are
/// well-formed, node identifiers are distinct, none of them takes the
/// network actor's address, and the count of nodes stays countable.
pub open spec fn sys_wf<M, N>(v: SysView<M, N>) -> bool {
    &&& sim_wf(v.sim)
    &&& net_wf(v.net)
    &&& ids_unique(v.actors)
    &&& forall|i: int| 0 <= i < v.actors.len() ==> (#[trigger] v.actors[i].id) != net_addr()
    &&& v.actors.len() <= u32::MAX
}

/// What registering a node does: refused (unchanged state, `false`) when the
/// identifier is already taken, is the network actor's address, or the
/// registry is full; otherwise the adapter is appended and an immediate
/// `"init"` timer is armed for the node.
pub open spec fn add_node_spec<M, N: Node<M>>(v: SysView<M, N>, n: N) -> (SysView<M, N>, bool) {
    let id = n.spec_id();
    if registered(v.actors, id) || id == net_addr() || v.actors.len() >= u32::MAX {
        (v, false)
    } else {
        (
            SysView {
                sim: add_event_spec(v.sim, EvView::TimerFired { name: "init"@ }, id, id, 0),
                actors: v.actors.push(
                    ActorView { id: id, node: n, crashed: false, log: Seq::empty() },
                ),
                ..v
            },
            true,
        )
    }
}

/// What injecting a timer does: an immediate firing addressed to the node.
pub open spec fn add_timer_spec<M, N>(
    v: SysView<M, N>,
    node_id: Seq<char>,
    name: Seq<char>,
) -> SysView<M, N> {
    SysView {
        sim: add_event_spec(v.sim, EvView::TimerFired { name: name }, node_id, node_id, 0),
        ..v
    }
}

/// What sending does: a send event is scheduled for the network actor with
/// no delay; all network-model delay is applied by the network itself.
pub open spec fn send_spec<M, N>(
    v: SysView<M, N>,
    msg: M,
    src: Seq<char>,
    dest: Seq<char>,
) -> SysView<M, N> {
    SysView {
        sim: add_event_spec(
            v.sim,
            EvView::MessageSend { msg: msg, src: src, dest: dest },
            src,
            net_addr(),
            0,
        ),
        ..v
    }
}

/// The synthetic source tag of a caller-injected local message.
pub open spec fn local_tag(dest: Seq<char>) -> Seq<char> {
    "local@"@ + dest
}

/// What a local send does: an immediate local delivery that bypasses the
/// network entirely.
pub open spec fn send_local_spec<M, N>(v: SysView<M, N>, msg: M, dest: Seq<char>) -> SysView<
    M,
    N,
> {
    SysView {
        sim: add_event_spec(
            v.sim,
            EvView::LocalMessageReceive { msg: msg },
            local_tag(dest),
            dest,
            0,
        ),
        ..v
    }
}

/// What crashing a node does: its adapter is marked and its crash hook runs,
/// and the network adds it to the crashed set, for good.
pub open spec fn crash_node_spec<M, N: Node<M>>(v: SysView<M, N>, n: Seq<char>) -> SysView<M, N> {
    let i = actor_index(v.actors, n);
    SysView {
        actors: v.actors.update(i, crash_spec(v.actors[i])),
        net: NetView { crashed: add_id(v.net.crashed, n), ..v.net },
        ..v
    }
}

/// Whether the node is marked crashed; an unregistered identifier is not.
pub open spec fn node_is_crashed_spec<M, N>(v: SysView<M, N>, n: Seq<char>) -> bool {
    if registered(v.actors, n) {
        v.actors[actor_index(v.actors, n)].crashed
    } else {
        false
    }
}

/// What one engine step does.  On an empty queue, nothing.  Otherwise the
/// earliest event leaves the queue, the clock advances to its time, and the
/// event is dispatched: a send addressed to the network actor runs the fault
/// model, an event addressed to a registered node runs its adapter, and
/// anything else is discarded undelivered.
pub open spec fn step_spec<M, N: Node<M>>(v: SysView<M, N>) -> SysView<M, N> {
    if v.sim.queue.len() == 0 {
        v
    } else {
        let i = earliest_index(v.sim.queue);
        let e = v.sim.queue[i];
        let s1 = SimView { time: e.time, queue: v.sim.queue.remove(i), ..v.sim };
        if e.dest == net_addr() {
            match e.payload {
                EvView::MessageSend { msg, src, dest } => {
                    let r = deliver_spec(v.net, s1, msg, src, dest);
                    SysView { sim: r.1, net: r.0, ..v }
                },
                _ => SysView { sim: s1, ..v },
            }
        } else if registered(v.actors, e.dest) {
            let k = actor_index(v.actors, e.dest);
            let r = dispatch_spec(v.actors[k], s1, e.payload);
            SysView { sim: r.1, actors: v.actors.update(k, r.0), ..v }
        } else {
            SysView { sim: s1, ..v }
        }
    }
}

/// `n` engine steps in a row (an empty queue makes the rest no-ops).
pub open spec fn steps_spec<M, N: Node<M>>(v: SysView<M, N>, n: nat) -> SysView<M, N>
    decreases n,
{
    if n == 0 {
        v
    } else {
        steps_spec(step_spec(v), (n - 1) as nat)
    }
}

/// On an empty queue, any number of steps changes nothing.
pub proof fn lemma_steps_spec_empty<M, N: Node<M>>(v: SysView<M, N>, n: nat)
    requires
        v.sim.queue.len() == 0,
    ensures
        steps_spec(v, n) == v,
    decreases n,
{
    if n > 0 {
        lemma_steps_spec_empty::<M, N>(v, (n - 1) as nat);
    }
}

/// Stepping `n` times and then once more is one more step at the end.
pub proof fn lemma_steps_spec_snoc<M, N: Node<M>>(v: SysView<M, N>, n: nat)
    ensures
        steps_spec(v, n + 1) == step_spec(steps_spec(v, n)),
    decreases n,
{
    assert(((n + 1) - 1) as nat == n);
    assert(steps_spec(v, n + 1) == steps_spec(step_spec(v), n));
    if n > 0 {
        lemma_steps_spec_snoc::<M, N>(step_spec(v), (n - 1) as nat);
    }
}

/// `d` with the directed link from `a` to each member of `g` other than `a`
/// itself disabled.
pub open spec fn disable_from_node(
    d: Seq<(Seq<char>, Seq<char>)>,
    a: Seq<char>,
    g: Seq<Seq<char>>,
) -> Seq<(Seq<char>, Seq<char>)>
    decreases g.len(),
{
    if g.len() == 0 {
        d
    } else {
        let r = disable_from_node(d, a, g.drop_last());
        if g.last() == a {
            r
        } else {
            add_link(r, a, g.last())
        }
    }
}

/// `d` with every directed link between two distinct members of `g`
/// (iterated over the prefix `outer`) disabled.
pub open spec fn disable_all_pairs(
    d: Seq<(Seq<char>, Seq<char>)>,
    outer: Seq<Seq<char>>,
    g: Seq<Seq<char>>,
) -> Seq<(Seq<char>, Seq<char>)>
    decreases outer.len(),
{
    if outer.len() == 0 {
        d
    } else {
        disable_from_node(disable_all_pairs(d, outer.drop_last(), g), outer.last(), g)
    }
}

/// `d` with the directed link from `a` to each member of `g` other than `a`
/// itself enabled.
pub open spec fn enable_from_node(
    d: Seq<(Seq<char>, Seq<char>)>,
    a: Seq<char>,
    g: Seq<Seq<char>>,
) -> Seq<(Seq<char>, Seq<char>)>
    decreases g.len(),
{
    if g.len() == 0 {
        d
    } else {
        let r = enable_from_node(d, a, g.drop_last());
        if g.last() == a {
            r
        } else {
            remove_link(r, a, g.last())
        }
    }
}

/// `d` with every directed link between two distinct members of `g`
/// (iterated over the prefix `outer`) enabled.
pub open spec fn enable_all_pairs(
    d: Seq<(Seq<char>, Seq<char>)>,
    outer: Seq<Seq<char>>,
    g: Seq<Seq<char>>,
) -> Seq<(Seq<char>, Seq<char>)>
    decreases outer.len(),
{
    if outer.len() == 0 {
        d
    } else {
        enable_from_node(enable_all_pairs(d, outer.drop_last(), g), outer.last(), g)
    }
}

/// The step bound of the outwardly unbounded stepping operations: more
/// steps than any practical run performs.
pub open spec fn step_horizon() -> nat {
    u64::MAX as nat
}

/// The payload of the event the engine would deliver next (meaningful only
/// when the queue is non-empty).
pub open spec fn head_payload<M, N>(v: SysView<M, N>) -> EvView<M> {
    v.sim.queue[earliest_index(v.sim.queue)].payload
}

/// The predicate, applied to some event value whose view is `p`, returns
/// `verdict` on it.
pub open spec fn predicate_verdict<M, F: Fn(&SysEvent<M>) -> bool>(
    f: &F,
    p: EvView<M>,
    verdict: bool,
) -> bool {
    exists|e: &SysEvent<M>| e@ == p && f.ensures((e,), verdict)
}

/// The orchestrator: engine, network model, and the adapters in
/// registration order.
pub struct System<M, N> {
    pub sim: Simulation<M>,
    pub net: Network,
    pub actors: Vec<NodeActor<M, N>>,
}

impl<M, N> View for System<M, N> {
    type V = SysView<M, N>;

    open spec fn view(&self) -> SysView<M, N> {
        SysView { sim: self.sim@, net: self.net@, actors: actor_views(self.actors@) }
    }
}

impl<M: Payload, N: Node<M>> System<M, N> {
    /// The structural invariant, as a predicate on the value itself: the
    /// view is well-formed and the engine's recorded seed is the one its
    /// random stream was built from.
    pub open spec fn wf(&self) -> bool {
        sys_wf(self@) && self.sim.wf()
    }

    /// A fresh system whose whole run is a function of `seed` and of the
    /// calls made against it.
    pub fn with_seed(seed: u64) -> (r: System<M, N>)
        ensures
            r.wf(),
            r@ == init_view::<M, N>(seed),
    {
        let r = System { sim: Simulation::new(seed), net: Network::new(), actors: Vec::new() };
        proof {
            assert(r@.actors =~= Seq::<ActorView<M, N>>::empty());
            assert(r@ =~= init_view::<M, N>(seed));
        }
        r
    }

    /// A fresh system under a seed drawn from the environment.  The drawn
    /// seed is reported by [`System::seed`], so the run can be reproduced by
    /// driving a system built with [`System::with_seed`] of that value
    /// through the same calls.
    pub fn new() -> (r: System<M, N>)
        ensures
            r.wf(),
            1 <= r@.sim.seed < 1_000_000,
            r@ == init_view::<M, N>(r@.sim.seed),
    {
        let seed = random_seed();
        Self::with_seed(seed)
    }

    /// The seed this system was built with.
    pub fn seed(&self) -> (r: u64)
        ensures
            r == self@.sim.seed,
    {
        self.sim.seed
    }

    /// The position of the registered node `id`, or nothing.
    fn find_actor(&self, id: &str) -> (r: Option<usize>)
        requires
            self.wf(),
        ensures
            match r {
                Option::Some(i) => registered(self@.actors, id@) && 0 <= i < self@.actors.len()
                    && self@.actors[i as int].id == id@ && i as int == actor_index(
                    self@.actors,
                    id@,
                ),
                Option::None => !registered(self@.actors, id@),
            },
    {
        let mut i: usize = 0;
        while i < self.actors.len()
            invariant
                self.wf(),
                i <= self.actors.len(),
                forall|j: int| 0 <= j < i ==> #[trigger] actor_views(self.actors@)[j].id != id@,
            decreases self.actors.len() - i,
        {
            if str_eq(self.actors[i].id.as_str(), id) {
                proof {
                    assert(self@.actors[i as int].id == id@);
                    assert(actor_ids(self@.actors)[i as int] == id@);
                    assert(registered(self@.actors, id@));
                    assert(exists|j: int|
                        0 <= j < self@.actors.len() && self@.actors[j].id == id@);
                    let k = actor_index(self@.actors, id@);
                    assert(0 <= k < self@.actors.len() && self@.actors[k].id == id@);
                    assert(ids_unique(self@.actors));
                    if k < i as int {
                        assert(self@.actors[k].id != self@.actors[i as int].id);
                    }
                    if k > i as int {
                        assert(self@.actors[i as int].id != self@.actors[k].id);
                    }
                }
                return Some(i);
            }
            proof {
                assert(actor_views(self.actors@)[i as int].id == self.actors@[i as int].id@);
            }
            i += 1;
        }
        proof {
            assert forall|j: int| 0 <= j < actor_ids(self@.actors).len() implies #[trigger]
            actor_ids(self@.actors)[j] != id@ by {
                assert(actor_views(self.actors@)[j].id != id@);
            }
            assert(!registered(self@.actors, id@));
        }
        None
    }

    /// Whether a node with this identifier is registered.
    fn is_registered(&self, id: &str) -> (r: bool)
        requires
            self.wf(),
        ensures
            r == registered(self@.actors, id@),
    {
        match self.find_actor(id) {
            Option::Some(_) => true,
            Option::None => false,
        }
    }

    /// Registers a node under its own identifier and arms its immediate
    /// `"init"` timer.  Returns whether the node was accepted: a duplicate
    /// identifier, the network actor's address, or a full registry is
    /// refused and leaves the system unchanged.
    pub fn add_node(&mut self, node: N) -> (r: bool)
        requires
            old(self).wf(),
        ensures
            final(self).wf(),
            final(self)@ == add_node_spec(old(self)@, node).0,
            r == add_node_spec(old(self)@, node).1,
    {
        let actor = NodeActor::new(node);
        if self.actors.len() >= u32::MAX as usize {
            return false;
        }
        if str_eq(actor.id.as_str(), "net") {
            return false;
        }
        if self.is_registered(actor.id.as_str()) {
            return false;
        }
        let src = ActorId { name: actor.id.clone() };
        let dest = ActorId { name: actor.id.clone() };
        let ghost pre = self@;
        self.actors.push(actor);
        self.sim.add_event(SysEvent::TimerFired { name: "init".to_owned() }, src, dest, 0);
        proof {
            let id = node.spec_id();
            assert(actor_views(self.actors@) =~= pre.actors.push(
                ActorView { id: id, node: node, crashed: false, log: Seq::empty() },
            ));
            assert forall|i: int, j: int|
                0 <= i < j < self@.actors.len() implies #[trigger] self@.actors[i].id
                != #[trigger] self@.actors[j].id by {
                if j == self@.actors.len() - 1 {
                    assert(actor_ids(pre.actors)[i] == pre.actors[i].id);
                }
            }
            assert(final(self)@ =~= add_node_spec(pre, node).0);
        }
        true
    }

    /// Schedules an immediate firing of the named timer at the node.
    pub fn add_timer(&mut self, node_id: &str, name: &str)
        requires
            old(self).wf(),
            registered(old(self)@.actors, node_id@),
        ensures
            final(self).wf(),
            final(self)@ == add_timer_spec(old(self)@, node_id@, name@),
    {
        self.sim.add_event(
            SysEvent::TimerFired { name: name.to_owned() },
            ActorId::from(node_id),
            ActorId::from(node_id),
            0,
        );
        proof {
            assert(final(self)@ =~= add_timer_spec(old(self)@, node_id@, name@));
        }
    }

    /// The registered node identifiers, in registration order.
    pub fn get_node_ids(&self) -> (r: Vec<String>)
        ensures
            id_views(r@) == actor_ids(self@.actors),
    {
        let mut r: Vec<String> = Vec::new();
        let mut i: usize = 0;
        while i < self.actors.len()
            invariant
                i <= self.actors.len(),
                r@.len() == i,
                forall|j: int| 0 <= j < i ==> r@[j]@ == (#[trigger] self.actors@[j]).id@,
            decreases self.actors.len() - i,
        {
            r.push(self.actors[i].id.clone());
            i += 1;
        }
        proof {
            assert forall|j: int| 0 <= j < id_views(r@).len() implies #[trigger] id_views(r@)[j]
                == actor_ids(self@.actors)[j] by {
                assert(id_views(r@)[j] == r@[j]@);
                assert(actor_ids(self@.actors)[j] == actor_views(self.actors@)[j].id);
                assert(actor_views(self.actors@)[j].id == self.actors@[j].id@);
            }
            assert(id_views(r@) =~= actor_ids(self@.actors));
        }
        r
    }

    /// Crashes the node: marks its adapter, runs its crash hook once, and
    /// tells the network to discard its traffic from now on.
    pub fn crash_node(&mut self, node_id: &str)
        requires
            old(self).wf(),
            registered(old(self)@.actors, node_id@),
        ensures
            final(self).wf(),
            final(self)@ == crash_node_spec(old(self)@, node_id@),
    {
        let idx = self.find_actor(node_id);
        match idx {
            Option::Some(i) => {
                let ghost pre = self@;
                let mut a = self.actors.remove(i);
                a.crash();
                self.actors.insert(i, a);
                self.net.node_crashed(node_id);
                proof {
                    assert(actor_views(self.actors@) =~= pre.actors.update(
                        i as int,
                        crash_spec(pre.actors[i as int]),
                    ));
                    assert(final(self)@ =~= crash_node_spec(pre, node_id@));
                }
            },
            Option::None => {
                proof {
                    assert(false);
                }
            },
        }
    }

    /// Whether the node has been crashed; an unknown identifier has not.
    pub fn node_is_crashed(&self, node_id: &str) -> (r: bool)
        requires
            self.wf(),
        ensures
            r == node_is_crashed_spec(self@, node_id@),
    {
        match self.find_actor(node_id) {
            Option::Some(i) => self.actors[i].crashed,
            Option::None => false,
        }
    }

    /// How many nodes are registered.
    pub fn node_count(&self) -> (r: u32)
        requires
            self.wf(),
        ensures
            r as nat == self@.actors.len(),
    {
        self.actors.len() as u32
    }

    /// Schedules `msg` from `src` to `dest` through the network: the send
    /// reaches the network actor with no delay, and the network model alone
    /// decides what becomes of it.
    pub fn send(&mut self, msg: M, src: &str, dest: &str)
        requires
            old(self).wf(),
            registered(old(self)@.actors, src@),
            registered(old(self)@.actors, dest@),
        ensures
            final(self).wf(),
            final(self)@ == send_spec(old(self)@, msg, src@, dest@),
    {
        let event = SysEvent::MessageSend {
            msg,
            src: ActorId::from(src),
            dest: ActorId::from(dest),
        };
        self.sim.add_event(event, ActorId::from(src), ActorId::from("net"), 0);
        proof {
            assert(final(self)@ =~= send_spec(old(self)@, msg, src@, dest@));
        }
    }

    /// Delivers `msg` directly to `dest` with no delay, bypassing the
    /// network model entirely.
    pub fn send_local(&mut self, msg: M, dest: &str)
        requires
            old(self).wf(),
            registered(old(self)@.actors, dest@),
        ensures
            final(self).wf(),
            final(self)@ == send_local_spec(old(self)@, msg, dest@),
    {
        let mut tag = "local@".to_owned();
        tag.append(dest);
        let src = ActorId { name: tag };
        let event = SysEvent::LocalMessageReceive { msg };
        self.sim.add_event(event, src, ActorId::from(dest), 0);
        proof {
            assert(final(self)@ =~= send_local_spec(old(self)@, msg, dest@));
        }
    }

    /// Delivers the next pending event, if any: the clock advances to its
    /// time and its addressee reacts.  Returns whether progress was made; on
    /// an empty queue nothing changes at all, and the clock never moves
    /// backwards.
    ///
    /// Beyond the exact transition, the contract spells out how the queue
    /// changes: the events not delivered stay untouched, in order, ahead of
    /// whatever the dispatch enqueued; and when the delivered event was a
    /// send addressed to the network actor, each entry the network added is
    /// that message as a receive for its destination, due within the
    /// configured delay window of the new clock — none at the extreme loss
    /// rate, exactly one under zero loss and zero duplication when nothing
    /// filters the send.
    pub fn step(&mut self) -> (r: bool)
        requires
            old(self).wf(),
        ensures
            final(self).wf(),
            final(self)@ == step_spec(old(self)@),
            r == (old(self)@.sim.queue.len() != 0),
            old(self)@.sim.queue.len() == 0 ==> final(self)@ == old(self)@,
            old(self)@.sim.time <= final(self)@.sim.time,
            old(self)@.sim.queue.len() > 0 ==> {
                let e = old(self)@.sim.queue[earliest_index(old(self)@.sim.queue)];
                let rest = old(self)@.sim.queue.remove(earliest_index(old(self)@.sim.queue));
                &&& rest.len() <= final(self)@.sim.queue.len()
                &&& (forall|j: int|
                    0 <= j < rest.len() ==> final(self)@.sim.queue[j] == #[trigger] rest[j])
                &&& (e.dest == net_addr() ==> (e.payload matches EvView::MessageSend {
                    msg,
                    src,
                    dest,
                } ==> {
                    &&& (forall|j: int|
                        rest.len() <= j < final(self)@.sim.queue.len() ==> {
                            &&& (#[trigger] final(self)@.sim.queue[j]).payload == (
                            EvView::MessageReceive { msg: msg, src: src, dest: dest })
                            &&& final(self)@.sim.queue[j].dest == dest
                            &&& sat_add(e.time, old(self)@.net.min_delay)
                                <= final(self)@.sim.queue[j].time
                            &&& final(self)@.sim.queue[j].time <= sat_add(
                                e.time,
                                old(self)@.net.max_delay,
                            )
                        })
                    &&& (old(self)@.net.drop_rate == RATE_SCALE ==> final(self)@.sim.queue == rest
                        && final(self)@.net.message_count == old(self)@.net.message_count)
                    &&& (old(self)@.net.drop_rate == 0 && old(self)@.net.dupl_rate == 0
                        && !net_filtered(old(self)@.net, src, dest)
                        ==> final(self)@.sim.queue.len() == rest.len() + 1
                        && final(self)@.net.message_count
                        == sat_add(old(self)@.net.message_count, 1))
                }))
            },
    {
        let ghost pre = self@;
        let popped = self.sim.step_pop();
        match popped {
            Option::None => {
                proof {
                    assert(final(self)@ =~= pre);
                }
                false
            },
            Option::Some(e) => {
                let ghost pe = e@;
                let ghost rest = pre.sim.queue.remove(earliest_index(pre.sim.queue));
                proof {
                    assert(self@.sim.queue == rest);
                    assert(self@.sim.time == pe.time);
                }
                let Entry { time: _, src: _, dest, payload } = e;
                if str_eq(dest.name.as_str(), "net") {
                    match payload {
                        SysEvent::MessageSend { msg, src, dest: to } => {
                            let ghost m = msg;
                            let ghost sv = src@;
                            let ghost tv = to@;
                            net_deliver(&mut self.net, &mut self.sim, msg, src, to);
                            proof {
                                assert(pe.payload == (EvView::MessageSend {
                                    msg: m,
                                    src: sv,
                                    dest: tv,
                                }));
                                assert(final(self)@ =~= step_spec(pre));
                            }
                        },
                        _ => {
                            proof {
                                assert(final(self)@ =~= step_spec(pre));
                            }
                        },
                    }
                } else {
                    let idx = self.find_actor(dest.name.as_str());
                    match idx {
                        Option::Some(i) => {
                            let ghost mid = self@;
                            let mut a = self.actors.remove(i);
                            dispatch(&mut a, &mut self.sim, payload);
                            self.actors.insert(i, a);
                            proof {
                                let k = actor_index(pre.actors, dest@);
                                assert(actor_views(self.actors@) =~= pre.actors.update(
                                    k,
                                    dispatch_spec(pre.actors[k], mid.sim, pe.payload).0,
                                ));
                                lemma_apply_actions_frame_for_dispatch::<M, N>(
                                    pre.actors[k],
                                    mid.sim,
                                    pe.payload,
                                );
                                assert(final(self)@ =~= step_spec(pre));
                            }
                        },
                        Option::None => {
                            proof {
                                assert(final(self)@ =~= step_spec(pre));
                            }
                        },
                    }
                }
                true
            },
        }
    }

    /// Performs up to `step_count` steps, stopping early once the queue is
    /// empty.
    pub fn steps(&mut self, step_count: u32)
        requires
            old(self).wf(),
        ensures
            final(self).wf(),
            final(self)@ == steps_spec(old(self)@, step_count as nat),
            old(self)@.sim.time <= final(self)@.sim.time,
    {
        let mut k: u32 = 0;
        while k < step_count
            invariant
                self.wf(),
                k <= step_count,
                steps_spec(self@, (step_count - k) as nat) == steps_spec(
                    old(self)@,
                    step_count as nat,
                ),
                old(self)@.sim.time <= self@.sim.time,
            decreases step_count - k,
        {
            let ghost prev = self@;
            let ghost rem = (step_count - k) as nat;
            let progressed = self.step();
            k += 1;
            proof {
                assert(steps_spec(prev, rem) == steps_spec(step_spec(prev), (rem - 1) as nat));
            }
            if !progressed {
                proof {
                    lemma_steps_spec_empty::<M, N>(self@, (rem - 1) as nat);
                }
                return ;
            }
        }
    }

    /// Steps until no pending event is left (or until the step horizon, a
    /// bound no practical run approaches, is exhausted).
    pub fn step_until_no_events(&mut self)
        requires
            old(self).wf(),
        ensures
            final(self).wf(),
            final(self)@ == steps_spec(old(self)@, step_horizon()),
            old(self)@.sim.time <= final(self)@.sim.time,
    {
        let mut fuel: u64 = u64::MAX;
        while fuel > 0
            invariant
                self.wf(),
                steps_spec(self@, fuel as nat) == steps_spec(old(self)@, step_horizon()),
                old(self)@.sim.time <= self@.sim.time,
            decreases fuel,
        {
            let ghost prev = self@;
            let ghost rem = fuel as nat;
            let progressed = self.step();
            fuel -= 1;
            proof {
                assert(steps_spec(prev, rem) == steps_spec(step_spec(prev), (rem - 1) as nat));
            }
            if !progressed {
                proof {
                    lemma_steps_spec_empty::<M, N>(self@, (rem - 1) as nat);
                }
                return ;
            }
        }
    }

    /// Keeps delivering pending events while `predicate` accepts the payload
    /// about to be delivered, and stops, without delivering it, at the first
    /// event the predicate refuses (or when the queue empties).  The contract
    /// says so: some number of ordinary steps ran, the predicate returned
    /// true on every payload that was delivered, and afterwards the queue is
    /// empty or its head — still queued, the clock not advanced to it — is
    /// one the predicate returned false on (unless the step horizon, which
    /// no practical run approaches, was exhausted).
    pub fn step_while<F: Fn(&SysEvent<M>) -> bool>(&mut self, predicate: &F)
        requires
            old(self).wf(),
            forall|e: &SysEvent<M>| #[trigger] predicate.requires((e,)),
        ensures
            final(self).wf(),
            old(self)@.sim.time <= final(self)@.sim.time,
            exists|k: nat|
                {
                    &&& k <= step_horizon()
                    &&& final(self)@ == steps_spec(old(self)@, k)
                    &&& (forall|i: nat|
                        i < k ==> (#[trigger] steps_spec(old(self)@, i)).sim.queue.len() > 0
                            && predicate_verdict(
                            predicate,
                            head_payload(steps_spec(old(self)@, i)),
                            true,
                        ))
                    &&& (k == step_horizon() || final(self)@.sim.queue.len() == 0
                        || predicate_verdict(predicate, head_payload(final(self)@), false))
                },
    {
        let mut fuel: u64 = u64::MAX;
        let ghost mut k: nat = 0;
        while fuel > 0
            invariant
                self.wf(),
                k + fuel as nat == step_horizon(),
                self@ == steps_spec(old(self)@, k),
                old(self)@.sim.time <= self@.sim.time,
                forall|e: &SysEvent<M>| #[trigger] predicate.requires((e,)),
                forall|i: nat|
                    i < k ==> (#[trigger] steps_spec(old(self)@, i)).sim.queue.len() > 0
                        && predicate_verdict(
                        predicate,
                        head_payload(steps_spec(old(self)@, i)),
                        true,
                    ),
            decreases fuel,
        {
            let mut deliver = false;
            match self.sim.peek_earliest() {
                Option::None => {},
                Option::Some(e) => {
                    deliver = predicate(&e.payload);
                    proof {
                        assert((&e.payload)@ == head_payload(self@));
                        if deliver {
                            assert(predicate.ensures((&e.payload,), true));
                            assert(predicate_verdict(predicate, head_payload(self@), true));
                        } else {
                            assert(predicate.ensures((&e.payload,), false));
                            assert(predicate_verdict(predicate, head_payload(self@), false));
                        }
                    }
                },
            }
            if !deliver {
                proof {
                    assert(self@.sim.queue.len() == 0 || predicate_verdict(
                        predicate,
                        head_payload(self@),
                        false,
                    ));
                }
                return ;
            }
            proof {
                lemma_steps_spec_snoc::<M, N>(old(self)@, k);
            }
            self.step();
            proof {
                k = k + 1nat;
            }
            fuel -= 1;
        }
    }

    /// Disables every directed link between two distinct registered nodes.
    pub fn disable_all_links(&mut self)
        requires
            old(self).wf(),
        ensures
            final(self).wf(),
            final(self)@ == (SysView {
                net: NetView {
                    disabled: disable_all_pairs(
                        old(self)@.net.disabled,
                        actor_ids(old(self)@.actors),
                        actor_ids(old(self)@.actors),
                    ),
                    ..old(self)@.net
                },
                ..old(self)@
            }),
    {
        let ghost g = actor_ids(old(self)@.actors);
        let ghost d0 = old(self)@.net.disabled;
        let mut i: usize = 0;
        proof {
            assert(g.subrange(0, 0) =~= Seq::<Seq<char>>::empty());
        }
        while i < self.actors.len()
            invariant
                self.wf(),
                i <= self.actors.len(),
                actor_views(self.actors@) == old(self)@.actors,
                self@.sim == old(self)@.sim,
                g == actor_ids(old(self)@.actors),
                self@.net == (NetView {
                    disabled: disable_all_pairs(d0, g.subrange(0, i as int), g),
                    ..old(self)@.net
                }),
            decreases self.actors.len() - i,
        {
            let from = self.actors[i].id.clone();
            let ghost outer = self@.net.disabled;
            let mut j: usize = 0;
            proof {
                assert(from@ == g[i as int]);
                assert(g.subrange(0, 0) =~= Seq::<Seq<char>>::empty());
            }
            while j < self.actors.len()
                invariant
                    self.wf(),
                    j <= self.actors.len(),
                    i < self.actors.len(),
                    actor_views(self.actors@) == old(self)@.actors,
                    self@.sim == old(self)@.sim,
                    g == actor_ids(old(self)@.actors),
                    from@ == g[i as int],
                    self@.net == (NetView {
                        disabled: disable_from_node(outer, g[i as int], g.subrange(0, j as int)),
                        ..old(self)@.net
                    }),
                decreases self.actors.len() - j,
            {
                proof {
                    assert(g[j as int] == self.actors@[j as int].id@);
                    assert(g.subrange(0, j + 1 as int).drop_last() =~= g.subrange(0, j as int));
                    assert(g.subrange(0, j + 1 as int).last() == g[j as int]);
                }
                let to = self.actors[j].id.clone();
                if !str_eq(from.as_str(), to.as_str()) {
                    self.net.disable_link(from.as_str(), to.as_str());
                }
                j += 1;
            }
            proof {
                assert(g.subrange(0, self.actors@.len() as int) =~= g);
                assert(g.subrange(0, i + 1 as int).drop_last() =~= g.subrange(0, i as int));
                assert(g.subrange(0, i + 1 as int).last() == g[i as int]);
            }
            i += 1;
        }
        proof {
            assert(g.subrange(0, self.actors@.len() as int) =~= g);
            assert(final(self)@ =~= (SysView {
                net: NetView { disabled: disable_all_pairs(d0, g, g), ..old(self)@.net },
                ..old(self)@
            }));
        }
    }

    /// Enables every directed link between two distinct registered nodes.
    #[verifier::rlimit(30)]
    pub fn enable_all_links(&mut self)
        requires
            old(self).wf(),
        ensures
            final(self).wf(),
            final(self)@ == (SysView {
                net: NetView {
                    disabled: enable_all_pairs(
                        old(self)@.net.disabled,
                        actor_ids(old(self)@.actors),
                        actor_ids(old(self)@.actors),
                    ),
                    ..old(self)@.net
                },
                ..old(self)@
            }),
    {
        let ghost g = actor_ids(old(self)@.actors);
        let ghost d0 = old(self)@.net.disabled;
        let mut i: usize = 0;
        proof {
            assert(g.subrange(0, 0) =~= Seq::<Seq<char>>::empty());
        }
        while i < self.actors.len()
            invariant
                self.wf(),
                i <= self.actors.len(),
                actor_views(self.actors@) == old(self)@.actors,
                self@.sim == old(self)@.sim,
                g == actor_ids(old(self)@.actors),
                self@.net == (NetView {
                    disabled: enable_all_pairs(d0, g.subrange(0, i as int), g),
                    ..old(self)@.net
                }),
            decreases self.actors.len() - i,
        {
            let from = self.actors[i].id.clone();
            let ghost outer = self@.net.disabled;
            let mut j: usize = 0;
            proof {
                assert(from@ == g[i as int]);
                assert(g.subrange(0, 0) =~= Seq::<Seq<char>>::empty());
            }
            while j < self.actors.len()
                invariant
                    self.wf(),
                    j <= self.actors.len(),
                    i < self.actors.len(),
                    actor_views(self.actors@) == old(self)@.actors,
                    self@.sim == old(self)@.sim,
                    g == actor_ids(old(self)@.actors),
                    from@ == g[i as int],
                    self@.net == (NetView {
                        disabled: enable_from_node(outer, g[i as int], g.subrange(0, j as int)),
                        ..old(self)@.net
                    }),
                decreases self.actors.len() - j,
            {
                proof {
                    assert(g[j as int] == self.actors@[j as int].id@);
                    assert(g.subrange(0, j + 1 as int).drop_last() =~= g.subrange(0, j as int));
                    assert(g.subrange(0, j + 1 as int).last() == g[j as int]);
                }
                let to = self.actors[j].id.clone();
                if !str_eq(from.as_str(), to.as_str()) {
                    self.net.enable_link(from.as_str(), to.as_str());
                }
                j += 1;
            }
            proof {
                assert(g.subrange(0, self.actors@.len() as int) =~= g);
                assert(g.subrange(0, i + 1 as int).drop_last() =~= g.subrange(0, i as int));
                assert(g.subrange(0, i + 1 as int).last() == g[i as int]);
            }
            i += 1;
        }
        proof {
            assert(g.subrange(0, self.actors@.len() as int) =~= g);
            assert(final(self)@ =~= (SysView {
                net: NetView { disabled: enable_all_pairs(d0, g, g), ..old(self)@.net },
                ..old(self)@
            }));
        }
    }

    /// Ordered log of the outputs `node_id` has emitted since registration.
    pub fn get_local_events(&self, node_id: &str) -> (r: Vec<LocalEvent<M>>)
        requires
            self.wf(),
            registered(self@.actors, node_id@),
        ensures
            r@ == self@.actors[actor_index(self@.actors, node_id@)].log,
    {
        let idx = self.find_actor(node_id);
        match idx {
            Option::Some(i) => self.actors[i].get_local_events(),
            Option::None => {
                proof {
                    assert(false);
                }
                Vec::new()
            },
        }
    }

    /// Drains the queue and reports how many events were still pending:
    /// the messages in flight at the moment the caller stopped stepping.
    pub fn count_undelivered_events(&mut self) -> (r: usize)
        requires
            old(self).wf(),
        ensures
            final(self).wf(),
            r == old(self)@.sim.queue.len(),
            final(self)@ == (SysView {
                sim: SimView { queue: Seq::empty(), ..old(self)@.sim },
                ..old(self)@
            }),
    {
        let undelivered = self.sim.read_undelivered_events();
        proof {
            assert(undelivered@.map_values(|e: Entry<M>| e@).len() == undelivered@.len());
            assert(final(self)@ =~= (SysView {
                sim: SimView { queue: Seq::empty(), ..old(self)@.sim },
                ..old(self)@
            }));
        }
        undelivered.len()
    }

    /// Collapses the network delay range to the single value `delay`.
    pub fn set_delay(&mut self, delay: u64)
        requires
            old(self).wf(),
        ensures
            final(self).wf(),
            final(self)@ == (SysView {
                net: NetView { min_delay: delay, max_delay: delay, ..old(self)@.net },
                ..old(self)@
            }),
    {
        self.net.set_delay(delay);
    }

    /// Sets the inclusive network delay range.
    pub fn set_delays(&mut self, min_delay: u64, max_delay: u64)
        requires
            old(self).wf(),
            min_delay <= max_delay,
        ensures
            final(self).wf(),
            final(self)@ == (SysView {
                net: NetView {
                    min_delay: min_delay,
                    max_delay: max_delay,
                    ..old(self)@.net
                },
                ..old(self)@
            }),
    {
        self.net.set_delays(min_delay, max_delay);
    }

    /// Sets the loss probability, as a fraction of [`RATE_SCALE`].
    pub fn set_drop_rate(&mut self, drop_rate: u64)
        requires
            old(self).wf(),
            drop_rate <= RATE_SCALE,
        ensures
            final(self).wf(),
            final(self)@ == (SysView {
                net: NetView { drop_rate: drop_rate, ..old(self)@.net },
                ..old(self)@
            }),
    {
        self.net.set_drop_rate(drop_rate);
    }

    /// Sets the duplication probability, as a fraction of [`RATE_SCALE`].
    pub fn set_dupl_rate(&mut self, dupl_rate: u64)
        requires
            old(self).wf(),
            dupl_rate <= RATE_SCALE,
        ensures
            final(self).wf(),
            final(self)@ == (SysView {
                net: NetView { dupl_rate: dupl_rate, ..old(self)@.net },
                ..old(self)@
            }),
    {
        self.net.set_dupl_rate(dupl_rate);
    }

    /// Blocks traffic into `node_id`.
    pub fn drop_incoming(&mut self, node_id: &str)
        requires
            old(self).wf(),
        ensures
            final(self).wf(),
            final(self)@ == (SysView {
                net: NetView {
                    blocked_in: add_id(old(self)@.net.blocked_in, node_id@),
                    ..old(self)@.net
                },
                ..old(self)@
            }),
    {
        self.net.drop_incoming(node_id);
    }

    /// Unblocks traffic into `node_id`.
    pub fn pass_incoming(&mut self, node_id: &str)
        requires
            old(self).wf(),
        ensures
            final(self).wf(),
            final(self)@ == (SysView {
                net: NetView {
                    blocked_in: remove_id(old(self)@.net.blocked_in, node_id@),
                    ..old(self)@.net
                },
                ..old(self)@
            }),
    {
        self.net.pass_incoming(node_id);
    }

    /// Blocks traffic out of `node_id`.
    pub fn drop_outgoing(&mut self, node_id: &str)
        requires
            old(self).wf(),
        ensures
            final(self).wf(),
            final(self)@ == (SysView {
                net: NetView {
                    blocked_out: add_id(old(self)@.net.blocked_out, node_id@),
                    ..old(self)@.net
                },
                ..old(self)@
            }),
    {
        self.net.drop_outgoing(node_id);
    }

    /// Unblocks traffic out of `node_id`.
    pub fn pass_outgoing(&mut self, node_id: &str)
        requires
            old(self).wf(),
        ensures
            final(self).wf(),
            final(self)@ == (SysView {
                net: NetView {
                    blocked_out: remove_id(old(self)@.net.blocked_out, node_id@),
                    ..old(self)@.net
                },
                ..old(self)@
            }),
    {
        self.net.pass_outgoing(node_id);
    }

    /// Blocks both directions of traffic for `node_id`.
    pub fn disconnect_node(&mut self, node_id: &str)
        requires
            old(self).wf(),
        ensures
            final(self).wf(),
            final(self)@ == (SysView {
                net: NetView {
                    blocked_in: add_id(old(self)@.net.blocked_in, node_id@),
                    blocked_out: add_id(old(self)@.net.blocked_out, node_id@),
                    ..old(self)@.net
                },
                ..old(self)@
            }),
    {
        self.net.disconnect_node(node_id);
    }

    /// Unblocks both directions of traffic for `node_id`.
    pub fn connect_node(&mut self, node_id: &str)
        requires
            old(self).wf(),
        ensures
            final(self).wf(),
            final(self)@ == (SysView {
                net: NetView {
                    blocked_in: remove_id(old(self)@.net.blocked_in, node_id@),
                    blocked_out: remove_id(old(self)@.net.blocked_out, node_id@),
                    ..old(self)@.net
                },
                ..old(self)@
            }),
    {
        self.net.connect_node(node_id);
    }

    /// Disables the directed link `from → to`.
    pub fn disable_link(&mut self, from: &str, to: &str)
        requires
            old(self).wf(),
        ensures
            final(self).wf(),
            final(self)@ == (SysView {
                net: NetView {
                    disabled: add_link(old(self)@.net.disabled, from@, to@),
                    ..old(self)@.net
                },
                ..old(self)@
            }),
    {
        self.net.disable_link(from, to);
    }

    /// Enables the directed link `from → to`.
    pub fn enable_link(&mut self, from: &str, to: &str)
        requires
            old(self).wf(),
        ensures
            final(self).wf(),
            final(self)@ == (SysView {
                net: NetView {
                    disabled: remove_link(old(self)@.net.disabled, from@, to@),
                    ..old(self)@.net
                },
                ..old(self)@
            }),
    {
        self.net.enable_link(from, to);
    }

    /// Enables both directions between `from` and `to`.
    pub fn enable_between(&mut self, from: &str, to: &str)
        requires
            old(self).wf(),
        ensures
            final(self).wf(),
            final(self)@ == (SysView {
                net: NetView {
                    disabled: remove_link(
                        remove_link(old(self)@.net.disabled, from@, to@),
                        to@,
                        from@,
                    ),
                    ..old(self)@.net
                },
                ..old(self)@
            }),
    {
        self.net.enable_link(from, to);
        self.net.enable_link(to, from);
    }

    /// Disables every directed link between the two groups, both directions.
    pub fn make_partition(&mut self, group1: &[&str], group2: &[&str])
        requires
            old(self).wf(),
        ensures
            final(self).wf(),
            final(self)@ == (SysView {
                net: NetView {
                    disabled: disable_between_groups(
                        old(self)@.net.disabled,
                        strs_views(group1@),
                        strs_views(group2@),
                    ),
                    ..old(self)@.net
                },
                ..old(self)@
            }),
    {
        self.net.make_partition(group1, group2);
    }

    /// Restores the network's delays, rates, links and blocks to their
    /// defaults, keeping the crashed set and the delivery counter.
    pub fn reset_network(&mut self)
        requires
            old(self).wf(),
        ensures
            final(self).wf(),
            final(self)@ == (SysView {
                net: NetView {
                    crashed: old(self)@.net.crashed,
                    message_count: old(self)@.net.message_count,
                    ..default_net()
                },
                ..old(self)@
            }),
    {
        self.net.reset_network();
    }

    /// The number of deliveries the network let through, duplicates counted.
    pub fn get_network_message_count(&self) -> (r: u64)
        ensures
            r == self@.net.message_count,
    {
        self.net.get_message_count()
    }

}

} // verus!
