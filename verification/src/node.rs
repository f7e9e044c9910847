//! The pluggable node capability and the per-node adapter.
//!
//! A [`Node`] is the protocol logic under test.  Each handler describes its
//! own behaviour with a specification function; the engine is verified
//! against those descriptions and is otherwise agnostic to what a node
//! computes.  The adapter wraps one node, applies the actions its handlers
//! ask for, and keeps the append-only log of the node's observable outputs.

use vstd::prelude::*;

use crate::event::{Action, ActionView, ActorId, EvView, LocalEvent, Payload, SysEvent};
use crate::sim::{add_event_spec, sim_wf, SimView, Simulation};

verus! {

/// The capability a simulated node must offer.  Each executable handler is
/// bound to a specification function of the same name, so that a node's
/// reaction is a function of its state and of the delivered event: that is
/// what makes a whole run reproducible.
pub trait Node<M>: Sized {
    /// The node's stable identifier.  The default says nothing: a node type
    /// that wants its contracts to mean something overrides it.
    open spec fn spec_id(&self) -> Seq<char> {
        arbitrary()
    }

    /// What handling an application message does to the node, and the
    /// actions it asks for.
    open spec fn on_message_spec(pre: Self, msg: M, src: Seq<char>) -> (Self, Seq<ActionView<M>>) {
        arbitrary()
    }

    /// What handling a caller-injected local message does.
    open spec fn on_local_message_spec(pre: Self, msg: M) -> (Self, Seq<ActionView<M>>) {
        arbitrary()
    }

    /// What a firing timer does.
    open spec fn on_timer_spec(pre: Self, name: Seq<char>) -> (Self, Seq<ActionView<M>>) {
        arbitrary()
    }

    /// What being told of the crash does to the node's state.
    open spec fn on_crash_spec(pre: Self) -> Self {
        arbitrary()
    }

    /// The node's identifier, used as its registry key.
    fn id(&self) -> (r: String)
        ensures
            r@ == self.spec_id(),
    ;

    /// Handles an application message from logical sender `src`.
    fn on_message(&mut self, msg: M, src: &str) -> (acts: Vec<Action<M>>)
        ensures
            *final(self) == Self::on_message_spec(*old(self), msg, src@).0,
            action_views(acts@) == Self::on_message_spec(
                *old(self),
                msg,
                src@,
            ).1,
    ;

    /// Handles a caller-injected local message.
    fn on_local_message(&mut self, msg: M) -> (acts: Vec<Action<M>>)
        ensures
            *final(self) == Self::on_local_message_spec(*old(self), msg).0,
            action_views(acts@) == Self::on_local_message_spec(
                *old(self),
                msg,
            ).1,
    ;

    /// Handles the named timer firing; the reserved name `"init"` is fired
    /// once at registration time.
    fn on_timer(&mut self, name: &str) -> (acts: Vec<Action<M>>)
        ensures
            *final(self) == Self::on_timer_spec(*old(self), name@).0,
            action_views(acts@) == Self::on_timer_spec(*old(self), name@).1,
    ;

    /// Tells the node it has crashed: its one chance to stop producing
    /// further external effects.
    fn on_crash(&mut self)
        ensures
            *final(self) == Self::on_crash_spec(*old(self)),
    ;
}

/// The view of a [`NodeActor`].
#[verifier::ext_equal]
pub struct ActorView<M, N> {
    pub id: Seq<char>,
    pub node: N,
    pub crashed: bool,
    pub log: Seq<LocalEvent<M>>,
}

/// The adapter around one node: the node itself, its crashed flag, and the
/// ordered log of the outputs it has emitted.
pub struct NodeActor<M, N> {
    pub id: String,
    pub node: N,
    pub crashed: bool,
    pub log: Vec<LocalEvent<M>>,
}

impl<M, N> View for NodeActor<M, N> {
    type V = ActorView<M, N>;

    open spec fn view(&self) -> ActorView<M, N> {
        ActorView { id: self.id@, node: self.node, crashed: self.crashed, log: self.log@ }
    }
}

/// The views of a sequence of actions.
pub open spec fn action_views<M>(s: Seq<Action<M>>) -> Seq<ActionView<M>> {
    s.map_values(|a: Action<M>| a@)
}

/// The well-known address of the network actor.
pub open spec fn net_addr() -> Seq<char> {
    "net"@
}

/// What one node action does to the adapter and to the engine: a send goes
/// to the network actor with no extra delay, a timer request schedules the
/// firing back to the node itself, and a local output is appended to the
/// adapter's log stamped with the current logical time.
pub open spec fn apply_action_spec<M, N>(
    a: ActorView<M, N>,
    s: SimView<M>,
    act: ActionView<M>,
) -> (ActorView<M, N>, SimView<M>) {
    match act {
        ActionView::Send { msg, dest } => (
            a,
            add_event_spec(
                s,
                EvView::MessageSend { msg: msg, src: a.id, dest: dest },
                a.id,
                net_addr(),
                0,
            ),
        ),
        ActionView::SetTimer { name, delay } => (
            a,
            add_event_spec(s, EvView::TimerFired { name: name }, a.id, a.id, delay),
        ),
        ActionView::Local { msg } => (
            ActorView { log: a.log.push(LocalEvent { time: s.time, msg: msg }), ..a },
            s,
        ),
    }
}

/// Node actions applied in order, oldest first.
pub open spec fn apply_actions_spec<M, N>(
    a: ActorView<M, N>,
    s: SimView<M>,
    acts: Seq<ActionView<M>>,
) -> (ActorView<M, N>, SimView<M>)
    decreases acts.len(),
{
    if acts.len() == 0 {
        (a, s)
    } else {
        let mid = apply_actions_spec(a, s, acts.drop_last());
        apply_action_spec(mid.0, mid.1, acts.last())
    }
}

/// Applying actions never touches the adapter's identity or crashed flag,
/// never moves the clock or the random stream, keeps the engine well-formed,
/// and only appends to the pending queue.
pub proof fn lemma_apply_actions_frame<M, N>(
    a: ActorView<M, N>,
    s: SimView<M>,
    acts: Seq<ActionView<M>>,
)
    ensures
        apply_actions_spec(a, s, acts).0.id == a.id,
        apply_actions_spec(a, s, acts).0.crashed == a.crashed,
        apply_actions_spec(a, s, acts).0.node == a.node,
        apply_actions_spec(a, s, acts).1.time == s.time,
        apply_actions_spec(a, s, acts).1.seed == s.seed,
        apply_actions_spec(a, s, acts).1.draws == s.draws,
        sim_wf(s) ==> sim_wf(apply_actions_spec(a, s, acts).1),
        apply_actions_spec(a, s, acts).1.queue.len() >= s.queue.len(),
        forall|j: int|
            0 <= j < s.queue.len() ==> apply_actions_spec(a, s, acts).1.queue[j] == #[trigger] s.queue[j],
    decreases acts.len(),
{
    if acts.len() > 0 {
        lemma_apply_actions_frame(a, s, acts.drop_last());
    }
}

/// What delivering one event to the adapter does.  A received message, local
/// message or fired timer runs the matching handler and applies its actions;
/// a timer-set request arms the timer by scheduling its firing; a send
/// payload is not meant for a node and does nothing.  Delivery is not
/// filtered by the crashed flag: keeping crashed nodes silent is the
/// network's job, so timers still reach a crashed node.
pub open spec fn dispatch_spec<M, N: Node<M>>(
    a: ActorView<M, N>,
    s: SimView<M>,
    ev: EvView<M>,
) -> (ActorView<M, N>, SimView<M>) {
    match ev {
        EvView::MessageReceive { msg, src, dest: _ } => {
            let r = N::on_message_spec(a.node, msg, src);
            apply_actions_spec(ActorView { node: r.0, ..a }, s, r.1)
        },
        EvView::LocalMessageReceive { msg } => {
            let r = N::on_local_message_spec(a.node, msg);
            apply_actions_spec(ActorView { node: r.0, ..a }, s, r.1)
        },
        EvView::TimerFired { name } => {
            let r = N::on_timer_spec(a.node, name);
            apply_actions_spec(ActorView { node: r.0, ..a }, s, r.1)
        },
        EvView::TimerSet { name, delay } => (
            a,
            add_event_spec(s, EvView::TimerFired { name: name }, a.id, a.id, delay),
        ),
        EvView::MessageSend { .. } => (a, s),
    }
}

/// What the crash notification does: the flag is set and the node's crash
/// hook runs, exactly once; a second notification changes nothing.
pub open spec fn crash_spec<M, N: Node<M>>(a: ActorView<M, N>) -> ActorView<M, N> {
    if a.crashed {
        a
    } else {
        ActorView { crashed: true, node: N::on_crash_spec(a.node), ..a }
    }
}

impl<M: Payload, N: Node<M>> NodeActor<M, N> {
    /// Wraps a node in a fresh adapter: not crashed, empty log.
    pub fn new(node: N) -> (r: NodeActor<M, N>)
        ensures
            r@ == (ActorView {
                id: node.spec_id(),
                node: node,
                crashed: false,
                log: Seq::<LocalEvent<M>>::empty(),
            }),
    {
        let id = node.id();
        let r = NodeActor { id, node, crashed: false, log: Vec::new() };
        proof {
            assert(r@ =~= (ActorView {
                id: r.node.spec_id(),
                node: r.node,
                crashed: false,
                log: Seq::<LocalEvent<M>>::empty(),
            }));
        }
        r
    }

    /// Marks the adapter crashed and runs the node's crash hook, exactly
    /// once over the adapter's lifetime.
    pub fn crash(&mut self)
        ensures
            final(self)@ == crash_spec(old(self)@),
    {
        if !self.crashed {
            self.crashed = true;
            self.node.on_crash();
        }
    }

    /// The ordered log of outputs the node has emitted since creation.
    pub fn get_local_events(&self) -> (r: Vec<LocalEvent<M>>)
        ensures
            r@ == self@.log,
    {
        let mut r: Vec<LocalEvent<M>> = Vec::new();
        let mut i: usize = 0;
        while i < self.log.len()
            invariant
                i <= self.log.len(),
                r@ == self@.log.subrange(0, i as int),
            decreases self.log.len() - i,
        {
            r.push(LocalEvent { time: self.log[i].time, msg: self.log[i].msg.dup() });
            proof {
                assert(r@ =~= self@.log.subrange(0, i + 1 as int));
            }
            i += 1;
        }
        proof {
            assert(r@ =~= self@.log);
        }
        r
    }
}

/// Runs the given actions against the adapter and the engine, in order.
fn run_actions<M: Payload, N: Node<M>>(
    actor: &mut NodeActor<M, N>,
    sim: &mut Simulation<M>,
    acts: Vec<Action<M>>,
)
    requires
        old(sim).wf(),
    ensures
        final(sim).wf(),
        (final(actor)@, final(sim)@) == apply_actions_spec(
            old(actor)@,
            old(sim)@,
            action_views(acts@),
        ),
{
    let ghost acts0 = action_views(acts@);
    let mut rest = acts;
    let ghost mut done: int = 0;
    proof {
        assert(acts0.subrange(0, 0) =~= Seq::<ActionView<M>>::empty());
    }
    while rest.len() > 0
        invariant
            sim.wf(),
            0 <= done <= acts0.len(),
            action_views(rest@) =~= acts0.subrange(done, acts0.len() as int),
            (actor@, sim@) == apply_actions_spec(old(actor)@, old(sim)@, acts0.subrange(0, done)),
        decreases rest.len(),
    {
        let ghost prev = rest@;
        let act = rest.remove(0);
        proof {
            assert(action_views(prev) == acts0.subrange(
                done,
                acts0.len() as int,
            ));
            assert(action_views(prev).len() == prev.len());
            assert(prev.len() > 0);
            assert(done < acts0.len());
            assert(act@ == action_views(prev)[0]);
            assert(acts0.subrange(done, acts0.len() as int)[0] == acts0[done]);
            assert(act@ == acts0[done]);
            assert forall|k: int| 0 <= k < rest@.len() implies action_views(rest@)[k] == #[trigger] acts0.subrange(done + 1, acts0.len() as int)[k] by {
                assert(rest@[k] == prev[k + 1]);
                assert(action_views(rest@)[k] == rest@[k]@);
                assert(action_views(prev)[k + 1] == prev[k + 1]@);
                assert(acts0.subrange(done, acts0.len() as int)[k + 1] == acts0[done + 1 + k]);
                assert(acts0.subrange(done + 1, acts0.len() as int)[k] == acts0[done + 1 + k]);
            }
            assert(action_views(rest@) =~= acts0.subrange(
                done + 1,
                acts0.len() as int,
            ));
            lemma_apply_actions_frame(old(actor)@, old(sim)@, acts0.subrange(0, done));
        }
        let ghost pre_actor = actor@;
        let ghost pre_sim = sim@;
        match act {
            Action::Send { msg, dest } => {
                let src = ActorId { name: self_id_copy(actor) };
                let dest_id = ActorId { name: dest };
                let payload = SysEvent::MessageSend {
                    msg,
                    src: ActorId { name: self_id_copy(actor) },
                    dest: dest_id,
                };
                sim.add_event(payload, src, ActorId::from("net"), 0);
            },
            Action::SetTimer { name, delay } => {
                let src = ActorId { name: self_id_copy(actor) };
                let dest = ActorId { name: self_id_copy(actor) };
                sim.add_event(SysEvent::TimerFired { name }, src, dest, delay);
            },
            Action::Local { msg } => {
                let t = sim.time();
                actor.log.push(LocalEvent { time: t, msg });
            },
        }
        proof {
            assert((actor@, sim@) == apply_action_spec(pre_actor, pre_sim, acts0[done]));
            assert(acts0.subrange(0, done + 1).drop_last() =~= acts0.subrange(0, done));
            assert(acts0.subrange(0, done + 1).last() == acts0[done]);
            done = done + 1;
        }
    }
    proof {
        assert(acts0.subrange(0, acts0.len() as int) =~= acts0);
    }
}

/// A copy of the adapter's own address.
fn self_id_copy<M, N>(actor: &NodeActor<M, N>) -> (r: String)
    ensures
        r@ == actor@.id,
{
    actor.id.clone()
}

/// Delivers one event to the adapter, per [`dispatch_spec`].
pub fn dispatch<M: Payload, N: Node<M>>(
    actor: &mut NodeActor<M, N>,
    sim: &mut Simulation<M>,
    ev: SysEvent<M>,
)
    requires
        old(sim).wf(),
    ensures
        final(sim).wf(),
        (final(actor)@, final(sim)@) == dispatch_spec(old(actor)@, old(sim)@, ev@),
        final(actor)@.id == old(actor)@.id,
        final(actor)@.crashed == old(actor)@.crashed,
        final(sim)@.time == old(sim)@.time,
{
    match ev {
        SysEvent::MessageReceive { msg, src, dest: _ } => {
            let acts = actor.node.on_message(msg, src.name.as_str());
            run_actions(actor, sim, acts);
        },
        SysEvent::LocalMessageReceive { msg } => {
            let acts = actor.node.on_local_message(msg);
            run_actions(actor, sim, acts);
        },
        SysEvent::TimerFired { name } => {
            let acts = actor.node.on_timer(name.as_str());
            run_actions(actor, sim, acts);
        },
        SysEvent::TimerSet { name, delay } => {
            let src = ActorId { name: self_id_copy(actor) };
            let dest = ActorId { name: self_id_copy(actor) };
            sim.add_event(SysEvent::TimerFired { name }, src, dest, delay);
        },
        SysEvent::MessageSend { .. } => {},
    }
    proof {
        lemma_apply_actions_frame_for_dispatch(old(actor)@, old(sim)@, ev@);
    }
}

/// The frame facts of [`lemma_apply_actions_frame`], restated for a whole
/// dispatch.
pub proof fn lemma_apply_actions_frame_for_dispatch<M, N: Node<M>>(
    a: ActorView<M, N>,
    s: SimView<M>,
    ev: EvView<M>,
)
    ensures
        dispatch_spec(a, s, ev).0.id == a.id,
        dispatch_spec(a, s, ev).0.crashed == a.crashed,
        dispatch_spec(a, s, ev).1.time == s.time,
        dispatch_spec(a, s, ev).1.seed == s.seed,
        dispatch_spec(a, s, ev).1.draws == s.draws,
        sim_wf(s) ==> sim_wf(dispatch_spec(a, s, ev).1),
        dispatch_spec(a, s, ev).1.queue.len() >= s.queue.len(),
        forall|j: int|
            0 <= j < s.queue.len() ==> dispatch_spec(a, s, ev).1.queue[j] == #[trigger] s.queue[j],
{
    match ev {
        EvView::MessageReceive { msg, src, dest } => {
            let r = N::on_message_spec(a.node, msg, src);
            lemma_apply_actions_frame(ActorView { node: r.0, ..a }, s, r.1);
        },
        EvView::LocalMessageReceive { msg } => {
            let r = N::on_local_message_spec(a.node, msg);
            lemma_apply_actions_frame(ActorView { node: r.0, ..a }, s, r.1);
        },
        EvView::TimerFired { name } => {
            let r = N::on_timer_spec(a.node, name);
            lemma_apply_actions_frame(ActorView { node: r.0, ..a }, s, r.1);
        },
        EvView::TimerSet { .. } => {},
        EvView::MessageSend { .. } => {},
    }
}

} // verus!
