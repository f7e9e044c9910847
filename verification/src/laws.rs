//! The framework's global guarantees, stated and proved over the state
//! transitions that the executable operations are specified against.

use vstd::prelude::*;

use crate::net::{
    add_id, add_link, default_net, deliver_spec, disable_between_groups, disable_with_group,
    net_filtered, remove_id, remove_link, NetView,
};
use crate::node::Node;
use crate::sim::SimView;
use crate::system::{
    add_node_spec, add_timer_spec, crash_node_spec, disable_all_pairs, enable_all_pairs,
    init_view, send_local_spec, send_spec, step_horizon, step_spec, steps_spec, SysView,
};

verus! {

/// A sequence pushed keeps its members and gains the new one.
pub proof fn lemma_push_contains<T>(s: Seq<T>, e: T, x: T)
    ensures
        s.push(e).contains(x) <==> (s.contains(x) || x == e),
{
    if s.push(e).contains(x) {
        let i = choose|i: int| 0 <= i < s.push(e).len() && s.push(e)[i] == x;
        if i < s.len() {
            assert(s[i] == x);
        }
    }
    if s.contains(x) {
        let i = choose|i: int| 0 <= i < s.len() && s[i] == x;
        assert(s.push(e)[i] == x);
    }
    if x == e {
        assert(s.push(e)[s.len() as int] == x);
    }
}

/// Membership after [`add_id`]: the old members plus the added one.
pub proof fn lemma_add_id_contains(s: Seq<Seq<char>>, e: Seq<char>, x: Seq<char>)
    ensures
        add_id(s, e).contains(x) <==> (s.contains(x) || x == e),
{
    lemma_push_contains(s, e, x);
}

/// Membership after [`add_link`]: the old links plus the added one.
pub proof fn lemma_add_link_contains(
    s: Seq<(Seq<char>, Seq<char>)>,
    a: Seq<char>,
    b: Seq<char>,
    x: (Seq<char>, Seq<char>),
)
    ensures
        add_link(s, a, b).contains(x) <==> (s.contains(x) || x == (a, b)),
{
    lemma_push_contains(s, (a, b), x);
}

/// Membership after [`remove_link`]: the old links except the removed one.
pub proof fn lemma_remove_link_contains(
    s: Seq<(Seq<char>, Seq<char>)>,
    a: Seq<char>,
    b: Seq<char>,
    x: (Seq<char>, Seq<char>),
)
    ensures
        remove_link(s, a, b).contains(x) <==> (s.contains(x) && x != (a, b)),
    decreases s.len(),
{
    if s.len() > 0 {
        lemma_remove_link_contains(s.drop_last(), a, b, x);
        lemma_drop_last_contains(s, x);
        if s.last() != (a, b) {
            lemma_push_contains(remove_link(s.drop_last(), a, b), s.last(), x);
        }
    }
}

/// Membership after [`remove_id`]: the old members except the removed one.
pub proof fn lemma_remove_id_contains(s: Seq<Seq<char>>, e: Seq<char>, x: Seq<char>)
    ensures
        remove_id(s, e).contains(x) <==> (s.contains(x) && x != e),
    decreases s.len(),
{
    if s.len() > 0 {
        lemma_remove_id_contains(s.drop_last(), e, x);
        lemma_drop_last_contains(s, x);
        if s.last() != e {
            lemma_push_contains(remove_id(s.drop_last(), e), s.last(), x);
        }
    }
}

/// A non-empty sequence holds `x` exactly when its last element is `x` or
/// the rest holds it.
pub proof fn lemma_drop_last_contains<T>(s: Seq<T>, x: T)
    requires
        s.len() > 0,
    ensures
        s.contains(x) <==> (s.drop_last().contains(x) || s.last() == x),
{
    if s.contains(x) {
        let i = choose|i: int| 0 <= i < s.len() && s[i] == x;
        if i < s.len() - 1 {
            assert(s.drop_last()[i] == x);
        }
    }
    if s.drop_last().contains(x) {
        let i = choose|i: int| 0 <= i < s.drop_last().len() && s.drop_last()[i] == x;
        assert(s[i] == x);
    }
    if s.last() == x {
        assert(s[s.len() - 1] == x);
    }
}

/// Crash suppression: once a node is in the network's crashed set, a send
/// with it as source or as destination is silently discarded — the engine's
/// queue gains no receive event, no randomness is consumed, and the delivery
/// counter does not move.
pub proof fn lemma_crash_suppression<M>(
    net: NetView,
    s: SimView<M>,
    n: Seq<char>,
    msg: M,
    src: Seq<char>,
    dest: Seq<char>,
)
    requires
        net.crashed.contains(n),
        src == n || dest == n,
    ensures
        deliver_spec(net, s, msg, src, dest) == (net, s),
        deliver_spec(net, s, msg, src, dest).0.message_count == net.message_count,
{
    assert(net_filtered(net, src, dest));
}

/// Crashing a node puts it into the network's crashed set, where — by
/// [`lemma_crash_is_permanent`] and [`lemma_crash_suppression`] — it stays
/// and silences every later send touching it.
pub proof fn lemma_crash_node_marks<M, N: Node<M>>(v: SysView<M, N>, n: Seq<char>)
    ensures
        crash_node_spec(v, n).net.crashed.contains(n),
{
    lemma_add_id_contains(v.net.crashed, n, n);
}

/// A disabled directed link suppresses delivery the same way a crash does:
/// the send is discarded before any randomness is consumed, and the
/// delivery counter does not move.
pub proof fn lemma_disabled_link_suppression<M>(
    net: NetView,
    s: SimView<M>,
    msg: M,
    src: Seq<char>,
    dest: Seq<char>,
)
    requires
        net.disabled.contains((src, dest)),
    ensures
        deliver_spec(net, s, msg, src, dest) == (net, s),
{
    assert(net_filtered(net, src, dest));
}

/// Partition symmetry, first half: after the two groups are partitioned,
/// every directed link from a member of one group to a member of the other
/// is disabled, in both directions.
pub proof fn lemma_partition_disables_cross_links(
    d: Seq<(Seq<char>, Seq<char>)>,
    g1: Seq<Seq<char>>,
    g2: Seq<Seq<char>>,
    a: Seq<char>,
    b: Seq<char>,
)
    requires
        g1.contains(a),
        g2.contains(b),
    ensures
        disable_between_groups(d, g1, g2).contains((a, b)),
        disable_between_groups(d, g1, g2).contains((b, a)),
    decreases g1.len(),
{
    lemma_drop_last_contains(g1, a);
    if g1.last() == a {
        lemma_with_group_disables(disable_between_groups(d, g1.drop_last(), g2), a, g2, b);
    } else {
        lemma_partition_disables_cross_links(d, g1.drop_last(), g2, a, b);
        lemma_with_group_preserves(
            disable_between_groups(d, g1.drop_last(), g2),
            g1.last(),
            g2,
            (a, b),
        );
        lemma_with_group_preserves(
            disable_between_groups(d, g1.drop_last(), g2),
            g1.last(),
            g2,
            (b, a),
        );
    }
}

/// Disabling both directions between `a` and a whole group covers each
/// member of the group.
proof fn lemma_with_group_disables(
    d: Seq<(Seq<char>, Seq<char>)>,
    a: Seq<char>,
    g: Seq<Seq<char>>,
    b: Seq<char>,
)
    requires
        g.contains(b),
    ensures
        disable_with_group(d, a, g).contains((a, b)),
        disable_with_group(d, a, g).contains((b, a)),
    decreases g.len(),
{
    lemma_drop_last_contains(g, b);
    let r = disable_with_group(d, a, g.drop_last());
    if g.last() == b {
        lemma_add_link_contains(r, a, g.last(), (a, b));
        lemma_add_link_contains(add_link(r, a, g.last()), g.last(), a, (a, b));
        lemma_add_link_contains(add_link(r, a, g.last()), g.last(), a, (b, a));
    } else {
        lemma_with_group_disables(d, a, g.drop_last(), b);
        lemma_add_link_contains(r, a, g.last(), (a, b));
        lemma_add_link_contains(add_link(r, a, g.last()), g.last(), a, (a, b));
        lemma_add_link_contains(r, a, g.last(), (b, a));
        lemma_add_link_contains(add_link(r, a, g.last()), g.last(), a, (b, a));
    }
}

/// Disabling links never removes one: membership is preserved.
proof fn lemma_with_group_preserves(
    d: Seq<(Seq<char>, Seq<char>)>,
    a: Seq<char>,
    g: Seq<Seq<char>>,
    x: (Seq<char>, Seq<char>),
)
    requires
        d.contains(x),
    ensures
        disable_with_group(d, a, g).contains(x),
    decreases g.len(),
{
    if g.len() > 0 {
        lemma_with_group_preserves(d, a, g.drop_last(), x);
        let r = disable_with_group(d, a, g.drop_last());
        lemma_add_link_contains(r, a, g.last(), x);
        lemma_add_link_contains(add_link(r, a, g.last()), g.last(), a, x);
    }
}

/// Partition symmetry, second half: a pair of nodes that does not cross the
/// two groups keeps exactly the link state it had — links inside a group are
/// unaffected.
pub proof fn lemma_partition_leaves_rest(
    d: Seq<(Seq<char>, Seq<char>)>,
    g1: Seq<Seq<char>>,
    g2: Seq<Seq<char>>,
    x: (Seq<char>, Seq<char>),
)
    requires
        !(g1.contains(x.0) && g2.contains(x.1)),
        !(g1.contains(x.1) && g2.contains(x.0)),
    ensures
        disable_between_groups(d, g1, g2).contains(x) == d.contains(x),
    decreases g1.len(),
{
    if g1.len() > 0 {
        lemma_partition_leaves_rest(d, g1.drop_last(), g2, x);
        lemma_drop_last_contains(g1, x.0);
        lemma_drop_last_contains(g1, x.1);
        lemma_with_group_leaves_rest(
            disable_between_groups(d, g1.drop_last(), g2),
            g1.last(),
            g2,
            x,
        );
    }
}

/// A pair not touching `a` and the group keeps its link state.
proof fn lemma_with_group_leaves_rest(
    d: Seq<(Seq<char>, Seq<char>)>,
    a: Seq<char>,
    g: Seq<Seq<char>>,
    x: (Seq<char>, Seq<char>),
)
    requires
        !(x.0 == a && g.contains(x.1)),
        !(x.1 == a && g.contains(x.0)),
    ensures
        disable_with_group(d, a, g).contains(x) == d.contains(x),
    decreases g.len(),
{
    if g.len() > 0 {
        lemma_drop_last_contains(g, x.0);
        lemma_drop_last_contains(g, x.1);
        lemma_with_group_leaves_rest(d, a, g.drop_last(), x);
        let r = disable_with_group(d, a, g.drop_last());
        lemma_add_link_contains(r, a, g.last(), x);
        lemma_add_link_contains(add_link(r, a, g.last()), g.last(), a, x);
    }
}

/// Reset restores the defaults: after a reset the network carries a fresh
/// network's delays, rates, links and blocks, while the crashed set and the
/// delivery counter survive.
pub proof fn lemma_reset_restores_defaults(v: NetView)
    ensures
        ({
            let r = NetView { crashed: v.crashed, message_count: v.message_count, ..default_net() };
            &&& r.min_delay == 0
            &&& r.max_delay == 0
            &&& r.drop_rate == 0
            &&& r.dupl_rate == 0
            &&& forall|a: Seq<char>, b: Seq<char>| !r.disabled.contains((a, b))
            &&& forall|n: Seq<char>| !r.blocked_in.contains(n) && !r.blocked_out.contains(n)
            &&& r.crashed == v.crashed
            &&& r.message_count == v.message_count
        }),
{
}

/// One call against the orchestrator, as a value: the argument of the
/// determinism statement.  `step_while` is not listed: where it stops
/// depends on the caller's predicate, which is no value of the system; its
/// own contract still confines its effect to ordinary steps, each delivering
/// an event the predicate accepted, up to the first one it refused.
pub enum Call<M, N> {
    AddNode { node: N },
    AddTimer { node_id: Seq<char>, name: Seq<char> },
    Send { msg: M, src: Seq<char>, dest: Seq<char> },
    SendLocal { msg: M, dest: Seq<char> },
    CrashNode { node_id: Seq<char> },
    SetDelay { delay: u64 },
    SetDelays { min_delay: u64, max_delay: u64 },
    SetDropRate { rate: u64 },
    SetDuplRate { rate: u64 },
    DropIncoming { node_id: Seq<char> },
    PassIncoming { node_id: Seq<char> },
    DropOutgoing { node_id: Seq<char> },
    PassOutgoing { node_id: Seq<char> },
    DisconnectNode { node_id: Seq<char> },
    ConnectNode { node_id: Seq<char> },
    DisableLink { from: Seq<char>, to: Seq<char> },
    EnableLink { from: Seq<char>, to: Seq<char> },
    EnableBetween { from: Seq<char>, to: Seq<char> },
    DisableAllLinks,
    EnableAllLinks,
    MakePartition { group1: Seq<Seq<char>>, group2: Seq<Seq<char>> },
    ResetNetwork,
    Step,
    Steps { count: u32 },
    StepUntilNoEvents,
    CountUndelivered,
}

/// What one call does to the state: each arm is the transition that the
/// matching executable operation's contract equates its effect with.
pub open spec fn apply_call<M, N: Node<M>>(v: SysView<M, N>, c: Call<M, N>) -> SysView<M, N> {
    match c {
        Call::AddNode { node } => add_node_spec(v, node).0,
        Call::AddTimer { node_id, name } => add_timer_spec(v, node_id, name),
        Call::Send { msg, src, dest } => send_spec(v, msg, src, dest),
        Call::SendLocal { msg, dest } => send_local_spec(v, msg, dest),
        Call::CrashNode { node_id } => crash_node_spec(v, node_id),
        Call::SetDelay { delay } => SysView {
            net: NetView { min_delay: delay, max_delay: delay, ..v.net },
            ..v
        },
        Call::SetDelays { min_delay, max_delay } => SysView {
            net: NetView { min_delay: min_delay, max_delay: max_delay, ..v.net },
            ..v
        },
        Call::SetDropRate { rate } => SysView { net: NetView { drop_rate: rate, ..v.net }, ..v },
        Call::SetDuplRate { rate } => SysView { net: NetView { dupl_rate: rate, ..v.net }, ..v },
        Call::DropIncoming { node_id } => SysView {
            net: NetView { blocked_in: add_id(v.net.blocked_in, node_id), ..v.net },
            ..v
        },
        Call::PassIncoming { node_id } => SysView {
            net: NetView { blocked_in: remove_id(v.net.blocked_in, node_id), ..v.net },
            ..v
        },
        Call::DropOutgoing { node_id } => SysView {
            net: NetView { blocked_out: add_id(v.net.blocked_out, node_id), ..v.net },
            ..v
        },
        Call::PassOutgoing { node_id } => SysView {
            net: NetView { blocked_out: remove_id(v.net.blocked_out, node_id), ..v.net },
            ..v
        },
        Call::DisconnectNode { node_id } => SysView {
            net: NetView {
                blocked_in: add_id(v.net.blocked_in, node_id),
                blocked_out: add_id(v.net.blocked_out, node_id),
                ..v.net
            },
            ..v
        },
        Call::ConnectNode { node_id } => SysView {
            net: NetView {
                blocked_in: remove_id(v.net.blocked_in, node_id),
                blocked_out: remove_id(v.net.blocked_out, node_id),
                ..v.net
            },
            ..v
        },
        Call::DisableLink { from, to } => SysView {
            net: NetView { disabled: add_link(v.net.disabled, from, to), ..v.net },
            ..v
        },
        Call::EnableLink { from, to } => SysView {
            net: NetView { disabled: remove_link(v.net.disabled, from, to), ..v.net },
            ..v
        },
        Call::EnableBetween { from, to } => SysView {
            net: NetView {
                disabled: remove_link(remove_link(v.net.disabled, from, to), to, from),
                ..v.net
            },
            ..v
        },
        Call::DisableAllLinks => SysView {
            net: NetView {
                disabled: disable_all_pairs(
                    v.net.disabled,
                    crate::system::actor_ids(v.actors),
                    crate::system::actor_ids(v.actors),
                ),
                ..v.net
            },
            ..v
        },
        Call::EnableAllLinks => SysView {
            net: NetView {
                disabled: enable_all_pairs(
                    v.net.disabled,
                    crate::system::actor_ids(v.actors),
                    crate::system::actor_ids(v.actors),
                ),
                ..v.net
            },
            ..v
        },
        Call::MakePartition { group1, group2 } => SysView {
            net: NetView {
                disabled: disable_between_groups(v.net.disabled, group1, group2),
                ..v.net
            },
            ..v
        },
        Call::ResetNetwork => SysView {
            net: NetView {
                crashed: v.net.crashed,
                message_count: v.net.message_count,
                ..default_net()
            },
            ..v
        },
        Call::Step => step_spec(v),
        Call::Steps { count } => steps_spec(v, count as nat),
        Call::StepUntilNoEvents => steps_spec(v, step_horizon()),
        Call::CountUndelivered => SysView {
            sim: SimView { queue: Seq::empty(), ..v.sim },
            ..v
        },
    }
}

/// A whole history of calls, applied in order to a fresh system.
pub open spec fn run_calls<M, N: Node<M>>(seed: u64, calls: Seq<Call<M, N>>) -> SysView<M, N>
    decreases calls.len(),
{
    if calls.len() == 0 {
        init_view(seed)
    } else {
        apply_call(run_calls(seed, calls.drop_last()), calls.last())
    }
}

/// Determinism: the state a system reaches is a function of the seed and of
/// the call history alone.  Every executable operation's contract pins its
/// whole effect as the matching [`apply_call`] transition of the state it
/// was given, so two fresh systems built with the same seed and driven
/// through the same calls sit at [`run_calls`] of that history: they hold
/// the same clock, the same pending events in the same order, the same
/// per-node logs, and the same delivery count.
pub proof fn lemma_determinism<M, N: Node<M>>(
    seed: u64,
    calls: Seq<Call<M, N>>,
    v1: SysView<M, N>,
    v2: SysView<M, N>,
)
    requires
        v1 == run_calls(seed, calls),
        v2 == run_calls(seed, calls),
    ensures
        v1 == v2,
        v1.sim.time == v2.sim.time,
        v1.sim.queue == v2.sim.queue,
        v1.net.message_count == v2.net.message_count,
        v1.actors == v2.actors,
{
}

/// A crash is permanent: no call takes a node out of the network's crashed
/// set.
pub proof fn lemma_crash_is_permanent<M, N: Node<M>>(
    v: SysView<M, N>,
    c: Call<M, N>,
    n: Seq<char>,
)
    requires
        v.net.crashed.contains(n),
    ensures
        apply_call(v, c).net.crashed.contains(n),
{
    match c {
        Call::CrashNode { node_id } => {
            lemma_add_id_contains(v.net.crashed, node_id, n);
        },
        Call::Step => {
            lemma_step_preserves_crashed(v, n);
        },
        Call::Steps { count } => {
            lemma_steps_preserve_crashed(v, count as nat, n);
        },
        Call::StepUntilNoEvents => {
            lemma_steps_preserve_crashed(v, step_horizon(), n);
        },
        _ => {},
    }
}

/// Stepping never shrinks the crashed set: delivery only moves the counter,
/// and node dispatch never touches the network.
pub proof fn lemma_step_preserves_crashed<M, N: Node<M>>(v: SysView<M, N>, n: Seq<char>)
    requires
        v.net.crashed.contains(n),
    ensures
        step_spec(v).net.crashed.contains(n),
{
}

/// [`lemma_step_preserves_crashed`], over any number of steps.
pub proof fn lemma_steps_preserve_crashed<M, N: Node<M>>(v: SysView<M, N>, fuel: nat, n: Seq<char>)
    requires
        v.net.crashed.contains(n),
    ensures
        steps_spec(v, fuel).net.crashed.contains(n),
    decreases fuel,
{
    if fuel > 0 {
        lemma_step_preserves_crashed(v, n);
        lemma_steps_preserve_crashed(step_spec(v), (fuel - 1) as nat, n);
    }
}

} // verus!

