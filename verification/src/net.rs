//! The fault-injecting network model.
//!
//! The network intercepts every inter-node send and decides, from its
//! configuration and from the shared random stream, whether the message is
//! discarded, delivered once, or delivered twice, and with what delay.  A
//! link or node that is disabled, blocked or crashed never produces a
//! delivery.

use vstd::prelude::*;

use crate::event::{ActorId, EvView, Payload, SysEvent};
use crate::node::net_addr;
use crate::rng::sample;
use crate::sim::{add_event_spec, sat_add, SimView, Simulation};
use crate::RATE_SCALE;

verus! {

/// The views of a list of node identifiers.
pub open spec fn id_views(s: Seq<String>) -> Seq<Seq<char>> {
    s.map_values(|x: String| x@)
}

/// The views of a list of directed links.
pub open spec fn link_views(s: Seq<(String, String)>) -> Seq<(Seq<char>, Seq<char>)> {
    s.map_values(|x: (String, String)| (x.0@, x.1@))
}

/// `s` with `x` present: unchanged when already there, appended otherwise.
pub open spec fn add_id(s: Seq<Seq<char>>, x: Seq<char>) -> Seq<Seq<char>> {
    if s.contains(x) {
        s
    } else {
        s.push(x)
    }
}

/// `s` with every occurrence of `x` removed, keeping the order of the rest.
pub open spec fn remove_id(s: Seq<Seq<char>>, x: Seq<char>) -> Seq<Seq<char>>
    decreases s.len(),
{
    if s.len() == 0 {
        s
    } else {
        let r = remove_id(s.drop_last(), x);
        if s.last() == x {
            r
        } else {
            r.push(s.last())
        }
    }
}

/// `s` with the directed link `(a, b)` present.
pub open spec fn add_link(
    s: Seq<(Seq<char>, Seq<char>)>,
    a: Seq<char>,
    b: Seq<char>,
) -> Seq<(Seq<char>, Seq<char>)> {
    if s.contains((a, b)) {
        s
    } else {
        s.push((a, b))
    }
}

/// `s` with every occurrence of the directed link `(a, b)` removed.
pub open spec fn remove_link(
    s: Seq<(Seq<char>, Seq<char>)>,
    a: Seq<char>,
    b: Seq<char>,
) -> Seq<(Seq<char>, Seq<char>)>
    decreases s.len(),
{
    if s.len() == 0 {
        s
    } else {
        let r = remove_link(s.drop_last(), a, b);
        if s.last() == (a, b) {
            r
        } else {
            r.push(s.last())
        }
    }
}

/// The views of a group of node identifiers given as string slices.
pub open spec fn strs_views(s: Seq<&str>) -> Seq<Seq<char>> {
    s.map_values(|t: &str| t@)
}

/// `d` with both directions between `a` and each member of `g` disabled.
pub open spec fn disable_with_group(
    d: Seq<(Seq<char>, Seq<char>)>,
    a: Seq<char>,
    g: Seq<Seq<char>>,
) -> Seq<(Seq<char>, Seq<char>)>
    decreases g.len(),
{
    if g.len() == 0 {
        d
    } else {
        let r = disable_with_group(d, a, g.drop_last());
        add_link(add_link(r, a, g.last()), g.last(), a)
    }
}

/// `d` with every directed link between a member of `g1` and a member of
/// `g2` disabled, in both directions.
pub open spec fn disable_between_groups(
    d: Seq<(Seq<char>, Seq<char>)>,
    g1: Seq<Seq<char>>,
    g2: Seq<Seq<char>>,
) -> Seq<(Seq<char>, Seq<char>)>
    decreases g1.len(),
{
    if g1.len() == 0 {
        d
    } else {
        disable_with_group(disable_between_groups(d, g1.drop_last(), g2), g1.last(), g2)
    }
}

/// The mathematical state of the network model.
#[verifier::ext_equal]
pub struct NetView {
    pub min_delay: u64,
    pub max_delay: u64,
    pub drop_rate: u64,
    pub dupl_rate: u64,
    pub disabled: Seq<(Seq<char>, Seq<char>)>,
    pub blocked_in: Seq<Seq<char>>,
    pub blocked_out: Seq<Seq<char>>,
    pub crashed: Seq<Seq<char>>,
    pub message_count: u64,
}

/// The state of a freshly constructed network: no delay, nothing dropped,
/// nothing duplicated, every link enabled, nothing blocked or crashed.
pub open spec fn default_net() -> NetView {
    NetView {
        min_delay: 0,
        max_delay: 0,
        drop_rate: 0,
        dupl_rate: 0,
        disabled: Seq::empty(),
        blocked_in: Seq::empty(),
        blocked_out: Seq::empty(),
        crashed: Seq::empty(),
        message_count: 0,
    }
}

/// The delay range is ordered and the rates are probabilities.
pub open spec fn net_wf(v: NetView) -> bool {
    &&& v.min_delay <= v.max_delay
    &&& v.drop_rate <= RATE_SCALE
    &&& v.dupl_rate <= RATE_SCALE
}

/// A send from `src` to `dest` that the configuration silently discards:
/// either endpoint crashed, the destination's incoming or the source's
/// outgoing traffic blocked, or the directed link disabled.
pub open spec fn net_filtered(v: NetView, src: Seq<char>, dest: Seq<char>) -> bool {
    ||| v.crashed.contains(src)
    ||| v.crashed.contains(dest)
    ||| v.blocked_in.contains(dest)
    ||| v.blocked_out.contains(src)
    ||| v.disabled.contains((src, dest))
}

/// What the network does with a send of `msg` from `src` to `dest`.
///
/// A filtered send is discarded before any randomness is consumed.
/// Otherwise one draw decides dropping, a second decides duplication, and
/// each surviving copy gets its own uniformly drawn delay from the
/// configured range and becomes a receive event addressed to `dest`.  The
/// delivery counter grows by the number of copies actually scheduled.
pub open spec fn deliver_spec<M>(
    net: NetView,
    s: SimView<M>,
    msg: M,
    src: Seq<char>,
    dest: Seq<char>,
) -> (NetView, SimView<M>) {
    if net_filtered(net, src, dest) {
        (net, s)
    } else {
        let r_drop = sample(s.seed, s.draws, 0, (RATE_SCALE - 1) as u64);
        let s1 = SimView { draws: s.draws.push((0, (RATE_SCALE - 1) as u64)), ..s };
        if r_drop < net.drop_rate {
            (net, s1)
        } else {
            let r_dup = sample(s1.seed, s1.draws, 0, (RATE_SCALE - 1) as u64);
            let s2 = SimView { draws: s1.draws.push((0, (RATE_SCALE - 1) as u64)), ..s1 };
            let d1 = sample(s2.seed, s2.draws, net.min_delay, net.max_delay);
            let s3 = SimView { draws: s2.draws.push((net.min_delay, net.max_delay)), ..s2 };
            let s4 = add_event_spec(
                s3,
                EvView::MessageReceive { msg: msg, src: src, dest: dest },
                net_addr(),
                dest,
                d1,
            );
            if r_dup < net.dupl_rate {
                let d2 = sample(s4.seed, s4.draws, net.min_delay, net.max_delay);
                let s5 = SimView { draws: s4.draws.push((net.min_delay, net.max_delay)), ..s4 };
                let s6 = add_event_spec(
                    s5,
                    EvView::MessageReceive { msg: msg, src: src, dest: dest },
                    net_addr(),
                    dest,
                    d2,
                );
                (NetView { message_count: sat_add(net.message_count, 2), ..net }, s6)
            } else {
                (NetView { message_count: sat_add(net.message_count, 1), ..net }, s4)
            }
        }
    }
}

/// Relies on `str`'s `==` from core: string slices compare equal exactly
/// when their character sequences do.
#[verifier::external_body]
pub(crate) fn str_eq(a: &str, b: &str) -> (r: bool)
    ensures
        r == (a@ == b@),
{
    a == b
}

/// Whether `x` occurs in the identifier list `v`.
pub(crate) fn contains_id(v: &Vec<String>, x: &str) -> (r: bool)
    ensures
        r == id_views(v@).contains(x@),
{
    let mut i: usize = 0;
    while i < v.len()
        invariant
            i <= v.len(),
            forall|j: int| 0 <= j < i ==> #[trigger] id_views(v@)[j] != x@,
        decreases v.len() - i,
    {
        if str_eq(v[i].as_str(), x) {
            proof {
                assert(id_views(v@)[i as int] == x@);
            }
            return true;
        }
        proof {
            assert(id_views(v@)[i as int] == v@[i as int]@);
        }
        i += 1;
    }
    proof {
        assert(!id_views(v@).contains(x@));
    }
    false
}

/// Whether the directed link `(a, b)` occurs in `v`.
pub(crate) fn contains_link(v: &Vec<(String, String)>, a: &str, b: &str) -> (r: bool)
    ensures
        r == link_views(v@).contains((a@, b@)),
{
    let mut i: usize = 0;
    while i < v.len()
        invariant
            i <= v.len(),
            forall|j: int| 0 <= j < i ==> #[trigger] link_views(v@)[j] != (a@, b@),
        decreases v.len() - i,
    {
        if str_eq(v[i].0.as_str(), a) && str_eq(v[i].1.as_str(), b) {
            proof {
                assert(link_views(v@)[i as int] == (a@, b@));
            }
            return true;
        }
        proof {
            assert(link_views(v@)[i as int] == (v@[i as int].0@, v@[i as int].1@));
        }
        i += 1;
    }
    proof {
        assert(!link_views(v@).contains((a@, b@)));
    }
    false
}

/// Adds `x` to the identifier list unless it is already there.
fn insert_id(v: &mut Vec<String>, x: &str)
    ensures
        id_views(final(v)@) == add_id(id_views(old(v)@), x@),
{
    if !contains_id(v, x) {
        v.push(x.to_owned());
        proof {
            assert(id_views(final(v)@) =~= id_views(old(v)@).push(x@));
        }
    }
}

/// Removes every occurrence of `x` from the identifier list.
fn retain_without_id(v: &mut Vec<String>, x: &str)
    ensures
        id_views(final(v)@) == remove_id(id_views(old(v)@), x@),
{
    let ghost vs = id_views(v@);
    let mut out: Vec<String> = Vec::new();
    let mut i: usize = 0;
    proof {
        assert(vs.subrange(0, 0) =~= Seq::<Seq<char>>::empty());
        assert(id_views(out@) =~= remove_id(vs.subrange(0, 0), x@));
    }
    while i < v.len()
        invariant
            i <= v.len(),
            vs == id_views(v@),
            id_views(out@) == remove_id(vs.subrange(0, i as int), x@),
        decreases v.len() - i,
    {
        proof {
            assert(vs.subrange(0, i + 1 as int).drop_last() =~= vs.subrange(0, i as int));
            assert(vs.subrange(0, i + 1 as int).last() == vs[i as int]);
            assert(vs[i as int] == v@[i as int]@);
        }
        if !str_eq(v[i].as_str(), x) {
            out.push(v[i].clone());
            proof {
                assert(id_views(out@) =~= remove_id(vs.subrange(0, i as int), x@).push(
                    vs[i as int],
                ));
            }
        }
        i += 1;
    }
    proof {
        assert(vs.subrange(0, v@.len() as int) =~= vs);
    }
    *v = out;
}

/// Adds the directed link `(a, b)` unless it is already there.
fn insert_link(v: &mut Vec<(String, String)>, a: &str, b: &str)
    ensures
        link_views(final(v)@) == add_link(link_views(old(v)@), a@, b@),
{
    if !contains_link(v, a, b) {
        v.push((a.to_owned(), b.to_owned()));
        proof {
            assert(link_views(final(v)@) =~= link_views(old(v)@).push((a@, b@)));
        }
    }
}

/// Removes every occurrence of the directed link `(a, b)`.
fn retain_without_link(v: &mut Vec<(String, String)>, a: &str, b: &str)
    ensures
        link_views(final(v)@) == remove_link(link_views(old(v)@), a@, b@),
{
    let ghost vs = link_views(v@);
    let mut out: Vec<(String, String)> = Vec::new();
    let mut i: usize = 0;
    proof {
        assert(vs.subrange(0, 0) =~= Seq::<(Seq<char>, Seq<char>)>::empty());
        assert(link_views(out@) =~= remove_link(vs.subrange(0, 0), a@, b@));
    }
    while i < v.len()
        invariant
            i <= v.len(),
            vs == link_views(v@),
            link_views(out@) == remove_link(vs.subrange(0, i as int), a@, b@),
        decreases v.len() - i,
    {
        proof {
            assert(vs.subrange(0, i + 1 as int).drop_last() =~= vs.subrange(0, i as int));
            assert(vs.subrange(0, i + 1 as int).last() == vs[i as int]);
            assert(vs[i as int] == (v@[i as int].0@, v@[i as int].1@));
        }
        if !(str_eq(v[i].0.as_str(), a) && str_eq(v[i].1.as_str(), b)) {
            out.push((v[i].0.clone(), v[i].1.clone()));
            proof {
                assert(link_views(out@) =~= remove_link(vs.subrange(0, i as int), a@, b@).push(
                    vs[i as int],
                ));
            }
        }
        i += 1;
    }
    proof {
        assert(vs.subrange(0, v@.len() as int) =~= vs);
    }
    *v = out;
}

/// The network model: delay range, loss and duplication rates, disabled
/// directed links, per-node blocks, crashed nodes, and the count of
/// deliveries that went through.
pub struct Network {
    pub min_delay: u64,
    pub max_delay: u64,
    pub drop_rate: u64,
    pub dupl_rate: u64,
    pub disabled_links: Vec<(String, String)>,
    pub blocked_incoming: Vec<String>,
    pub blocked_outgoing: Vec<String>,
    pub crashed_nodes: Vec<String>,
    pub message_count: u64,
}

impl View for Network {
    type V = NetView;

    open spec fn view(&self) -> NetView {
        NetView {
            min_delay: self.min_delay,
            max_delay: self.max_delay,
            drop_rate: self.drop_rate,
            dupl_rate: self.dupl_rate,
            disabled: link_views(self.disabled_links@),
            blocked_in: id_views(self.blocked_incoming@),
            blocked_out: id_views(self.blocked_outgoing@),
            crashed: id_views(self.crashed_nodes@),
            message_count: self.message_count,
        }
    }
}

impl Network {
    /// The delay range is ordered and the rates are probabilities.
    pub open spec fn wf(&self) -> bool {
        net_wf(self@)
    }

    /// A fresh network in its default state.
    pub fn new() -> (r: Network)
        ensures
            r.wf(),
            r@ == default_net(),
    {
        let r = Network {
            min_delay: 0,
            max_delay: 0,
            drop_rate: 0,
            dupl_rate: 0,
            disabled_links: Vec::new(),
            blocked_incoming: Vec::new(),
            blocked_outgoing: Vec::new(),
            crashed_nodes: Vec::new(),
            message_count: 0,
        };
        proof {
            assert(r@ =~= default_net());
        }
        r
    }

    /// Collapses the delay range to the single value `d`.
    pub fn set_delay(&mut self, d: u64)
        ensures
            final(self)@ == (NetView { min_delay: d, max_delay: d, ..old(self)@ }),
    {
        self.min_delay = d;
        self.max_delay = d;
    }

    /// Sets the inclusive delay range.
    pub fn set_delays(&mut self, min_delay: u64, max_delay: u64)
        requires
            min_delay <= max_delay,
        ensures
            final(self)@ == (NetView {
                min_delay: min_delay,
                max_delay: max_delay,
                ..old(self)@
            }),
    {
        self.min_delay = min_delay;
        self.max_delay = max_delay;
    }

    /// Sets the loss probability, as a fraction of [`RATE_SCALE`].
    pub fn set_drop_rate(&mut self, drop_rate: u64)
        requires
            drop_rate <= RATE_SCALE,
        ensures
            final(self)@ == (NetView { drop_rate: drop_rate, ..old(self)@ }),
    {
        self.drop_rate = drop_rate;
    }

    /// Sets the duplication probability, as a fraction of [`RATE_SCALE`].
    pub fn set_dupl_rate(&mut self, dupl_rate: u64)
        requires
            dupl_rate <= RATE_SCALE,
        ensures
            final(self)@ == (NetView { dupl_rate: dupl_rate, ..old(self)@ }),
    {
        self.dupl_rate = dupl_rate;
    }

    /// Blocks traffic into `node`.
    pub fn drop_incoming(&mut self, node: &str)
        ensures
            final(self)@ == (NetView {
                blocked_in: add_id(old(self)@.blocked_in, node@),
                ..old(self)@
            }),
    {
        insert_id(&mut self.blocked_incoming, node);
    }

    /// Unblocks traffic into `node`.
    pub fn pass_incoming(&mut self, node: &str)
        ensures
            final(self)@ == (NetView {
                blocked_in: remove_id(old(self)@.blocked_in, node@),
                ..old(self)@
            }),
    {
        retain_without_id(&mut self.blocked_incoming, node);
    }

    /// Blocks traffic out of `node`.
    pub fn drop_outgoing(&mut self, node: &str)
        ensures
            final(self)@ == (NetView {
                blocked_out: add_id(old(self)@.blocked_out, node@),
                ..old(self)@
            }),
    {
        insert_id(&mut self.blocked_outgoing, node);
    }

    /// Unblocks traffic out of `node`.
    pub fn pass_outgoing(&mut self, node: &str)
        ensures
            final(self)@ == (NetView {
                blocked_out: remove_id(old(self)@.blocked_out, node@),
                ..old(self)@
            }),
    {
        retain_without_id(&mut self.blocked_outgoing, node);
    }

    /// Blocks both directions of traffic for `node`.
    pub fn disconnect_node(&mut self, node: &str)
        ensures
            final(self)@ == (NetView {
                blocked_in: add_id(old(self)@.blocked_in, node@),
                blocked_out: add_id(old(self)@.blocked_out, node@),
                ..old(self)@
            }),
    {
        self.drop_incoming(node);
        self.drop_outgoing(node);
    }

    /// Unblocks both directions of traffic for `node`.
    pub fn connect_node(&mut self, node: &str)
        ensures
            final(self)@ == (NetView {
                blocked_in: remove_id(old(self)@.blocked_in, node@),
                blocked_out: remove_id(old(self)@.blocked_out, node@),
                ..old(self)@
            }),
    {
        self.pass_incoming(node);
        self.pass_outgoing(node);
    }

    /// Disables the directed link `from → to`.
    pub fn disable_link(&mut self, from: &str, to: &str)
        ensures
            final(self)@ == (NetView {
                disabled: add_link(old(self)@.disabled, from@, to@),
                ..old(self)@
            }),
    {
        insert_link(&mut self.disabled_links, from, to);
    }

    /// Enables the directed link `from → to`.
    pub fn enable_link(&mut self, from: &str, to: &str)
        ensures
            final(self)@ == (NetView {
                disabled: remove_link(old(self)@.disabled, from@, to@),
                ..old(self)@
            }),
    {
        retain_without_link(&mut self.disabled_links, from, to);
    }

    /// Disables every directed link between a node of `group1` and a node
    /// of `group2`, in both directions; links inside a group are untouched.
    pub fn make_partition(&mut self, group1: &[&str], group2: &[&str])
        ensures
            final(self)@ == (NetView {
                disabled: disable_between_groups(
                    old(self)@.disabled,
                    strs_views(group1@),
                    strs_views(group2@),
                ),
                ..old(self)@
            }),
    {
        let ghost g1v = strs_views(group1@);
        let ghost g2v = strs_views(group2@);
        let mut i: usize = 0;
        proof {
            assert(g1v.subrange(0, 0) =~= Seq::<Seq<char>>::empty());
        }
        while i < group1.len()
            invariant
                i <= group1.len(),
                g1v == strs_views(group1@),
                g2v == strs_views(group2@),
                self@ == (NetView {
                    disabled: disable_between_groups(
                        old(self)@.disabled,
                        g1v.subrange(0, i as int),
                        g2v,
                    ),
                    ..old(self)@
                }),
            decreases group1.len() - i,
        {
            let ghost outer = self@.disabled;
            let a = group1[i];
            let mut j: usize = 0;
            proof {
                assert(g2v.subrange(0, 0) =~= Seq::<Seq<char>>::empty());
                assert(a@ == g1v[i as int]);
            }
            while j < group2.len()
                invariant
                    j <= group2.len(),
                    i < group1.len(),
                    a@ == g1v[i as int],
                    g2v == strs_views(group2@),
                    self@ == (NetView {
                        disabled: disable_with_group(
                            outer,
                            g1v[i as int],
                            g2v.subrange(0, j as int),
                        ),
                        ..old(self)@
                    }),
                decreases group2.len() - j,
            {
                let b = group2[j];
                proof {
                    assert(b@ == g2v[j as int]);
                    assert(g2v.subrange(0, j + 1 as int).drop_last() =~= g2v.subrange(
                        0,
                        j as int,
                    ));
                    assert(g2v.subrange(0, j + 1 as int).last() == g2v[j as int]);
                }
                self.disable_link(a, b);
                self.disable_link(b, a);
                j += 1;
            }
            proof {
                assert(g2v.subrange(0, group2@.len() as int) =~= g2v);
                assert(g1v.subrange(0, i + 1 as int).drop_last() =~= g1v.subrange(0, i as int));
                assert(g1v.subrange(0, i + 1 as int).last() == g1v[i as int]);
            }
            i += 1;
        }
        proof {
            assert(g1v.subrange(0, group1@.len() as int) =~= g1v);
        }
    }

    /// Marks `node` crashed; every later send to or from it is discarded.
    pub fn node_crashed(&mut self, node: &str)
        ensures
            final(self)@ == (NetView {
                crashed: add_id(old(self)@.crashed, node@),
                ..old(self)@
            }),
    {
        insert_id(&mut self.crashed_nodes, node);
    }

    /// Restores delays, rates, links and blocks to their defaults.  Crashes
    /// are a node lifecycle fact, not a transient fault, so the crashed set
    /// stays; so does the delivery counter.
    pub fn reset_network(&mut self)
        ensures
            final(self)@ == (NetView {
                crashed: old(self)@.crashed,
                message_count: old(self)@.message_count,
                ..default_net()
            }),
    {
        self.min_delay = 0;
        self.max_delay = 0;
        self.drop_rate = 0;
        self.dupl_rate = 0;
        self.disabled_links = Vec::new();
        self.blocked_incoming = Vec::new();
        self.blocked_outgoing = Vec::new();
        proof {
            assert(final(self)@ =~= (NetView {
                crashed: old(self)@.crashed,
                message_count: old(self)@.message_count,
                ..default_net()
            }));
        }
    }

    /// The number of deliveries that went through, duplicates counted.
    pub fn get_message_count(&self) -> (r: u64)
        ensures
            r == self@.message_count,
    {
        self.message_count
    }
}

/// Runs one send through the network, per [`deliver_spec`]: the surviving
/// copies are enqueued as receive events and the counter advances.
///
/// Beyond the exact transition, the contract spells out what the delay
/// window and the extreme rates force, since the drawn values themselves are
/// known only by their bounds: the pending queue only grows, each new entry
/// is the same message as a receive for `dest` due within
/// `[time + min_delay, time + max_delay]`, a loss rate of [`RATE_SCALE`]
/// delivers nothing, and an unfiltered send under zero loss and zero
/// duplication is delivered exactly once.
pub fn net_deliver<M: Payload>(
    net: &mut Network,
    sim: &mut Simulation<M>,
    msg: M,
    src: ActorId,
    dest: ActorId,
)
    requires
        old(net).wf(),
        old(sim).wf(),
    ensures
        final(net).wf(),
        final(sim).wf(),
        (final(net)@, final(sim)@) == deliver_spec(old(net)@, old(sim)@, msg, src@, dest@),
        final(sim)@.time == old(sim)@.time,
        old(net)@.message_count <= final(net)@.message_count,
        old(sim)@.queue.len() <= final(sim)@.queue.len() <= old(sim)@.queue.len() + 2,
        forall|i: int|
            0 <= i < old(sim)@.queue.len() ==> final(sim)@.queue[i]
                == #[trigger] old(sim)@.queue[i],
        forall|i: int|
            old(sim)@.queue.len() <= i < final(sim)@.queue.len() ==> {
                &&& (#[trigger] final(sim)@.queue[i]).payload == (EvView::MessageReceive {
                    msg: msg,
                    src: src@,
                    dest: dest@,
                })
                &&& final(sim)@.queue[i].dest == dest@
                &&& sat_add(old(sim)@.time, old(net)@.min_delay) <= final(sim)@.queue[i].time
                &&& final(sim)@.queue[i].time <= sat_add(old(sim)@.time, old(net)@.max_delay)
            },
        old(net)@.drop_rate == RATE_SCALE ==> final(sim)@.queue == old(sim)@.queue
            && final(net)@.message_count == old(net)@.message_count,
        (old(net)@.drop_rate == 0 && old(net)@.dupl_rate == 0 && !net_filtered(
            old(net)@,
            src@,
            dest@,
        )) ==> final(sim)@.queue.len() == old(sim)@.queue.len() + 1 && final(net)@.message_count
            == sat_add(old(net)@.message_count, 1),
{
    let filtered = contains_id(&net.crashed_nodes, src.name.as_str()) || contains_id(
        &net.crashed_nodes,
        dest.name.as_str(),
    ) || contains_id(&net.blocked_incoming, dest.name.as_str()) || contains_id(
        &net.blocked_outgoing,
        src.name.as_str(),
    ) || contains_link(&net.disabled_links, src.name.as_str(), dest.name.as_str());
    if filtered {
        return ;
    }
    let r_drop = sim.rng.draw(0, RATE_SCALE - 1);
    if r_drop < net.drop_rate {
        return ;
    }
    let r_dup = sim.rng.draw(0, RATE_SCALE - 1);
    let d1 = sim.rng.draw(net.min_delay, net.max_delay);
    let payload1 = SysEvent::MessageReceive { msg: msg.dup(), src: src.dup(), dest: dest.dup() };
    sim.add_event(payload1, ActorId::from("net"), dest.dup(), d1);
    if r_dup < net.dupl_rate {
        let d2 = sim.rng.draw(net.min_delay, net.max_delay);
        let payload2 = SysEvent::MessageReceive { msg: msg, src: src, dest: dest.dup() };
        sim.add_event(payload2, ActorId::from("net"), dest, d2);
        net.message_count = if net.message_count <= u64::MAX - 2 {
            net.message_count + 2
        } else {
            u64::MAX
        };
    } else {
        net.message_count = if net.message_count <= u64::MAX - 1 {
            net.message_count + 1
        } else {
            u64::MAX
        };
    }
}

} // verus!
