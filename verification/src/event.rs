//! Addresses, event payloads, node actions and the observable local events.
//!
//! Every type here carries a mathematical view in which addresses and timer
//! names appear as character sequences, so that two values built from equal
//! strings have equal views.

use vstd::prelude::*;

verus! {

/// A message payload that can be duplicated exactly.  The network needs a
/// second copy of a message when it decides to deliver a duplicate; `dup`
/// is the message type's promise that the copy equals the original.
pub trait Payload: Sized {
    fn dup(&self) -> (r: Self)
        ensures
            r == *self,
    ;
}

impl Payload for u64 {
    fn dup(&self) -> (r: u64)
        ensures
            r == *self,
    {
        *self
    }
}

impl Payload for String {
    fn dup(&self) -> (r: String)
        ensures
            r == *self,
    {
        self.clone()
    }
}

/// An address naming a dispatch target: a registered node, the network
/// actor `"net"`, or a synthetic source tag for caller-injected messages.
pub struct ActorId {
    pub name: String,
}

impl View for ActorId {
    type V = Seq<char>;

    open spec fn view(&self) -> Seq<char> {
        self.name@
    }
}

impl ActorId {
    pub fn from(s: &str) -> (r: ActorId)
        ensures
            r@ == s@,
    {
        ActorId { name: s.to_owned() }
    }

    pub fn dup(&self) -> (r: ActorId)
        ensures
            r@ == self@,
    {
        ActorId { name: self.name.clone() }
    }
}

/// The payload of a scheduled event.
pub enum SysEvent<M> {
    /// An application message in flight from a node to the network actor.
    MessageSend { msg: M, src: ActorId, dest: ActorId },
    /// An application message delivered by the network to a node.
    MessageReceive { msg: M, src: ActorId, dest: ActorId },
    /// A caller-injected message delivered directly to a node.
    LocalMessageReceive { msg: M },
    /// A request to arm a named timer after a delay.
    TimerSet { name: String, delay: u64 },
    /// A named timer has elapsed and is delivered to its owning node.
    TimerFired { name: String },
}

/// The view of a [`SysEvent`]: addresses and names as character sequences.
#[verifier::ext_equal]
pub enum EvView<M> {
    MessageSend { msg: M, src: Seq<char>, dest: Seq<char> },
    MessageReceive { msg: M, src: Seq<char>, dest: Seq<char> },
    LocalMessageReceive { msg: M },
    TimerSet { name: Seq<char>, delay: u64 },
    TimerFired { name: Seq<char> },
}

impl<M> View for SysEvent<M> {
    type V = EvView<M>;

    open spec fn view(&self) -> EvView<M> {
        match self {
            SysEvent::MessageSend { msg, src, dest } => EvView::MessageSend {
                msg: *msg,
                src: src@,
                dest: dest@,
            },
            SysEvent::MessageReceive { msg, src, dest } => EvView::MessageReceive {
                msg: *msg,
                src: src@,
                dest: dest@,
            },
            SysEvent::LocalMessageReceive { msg } => EvView::LocalMessageReceive { msg: *msg },
            SysEvent::TimerSet { name, delay } => EvView::TimerSet {
                name: name@,
                delay: *delay,
            },
            SysEvent::TimerFired { name } => EvView::TimerFired { name: name@ },
        }
    }
}

/// An effect a node asks for from inside one of its handlers.
pub enum Action<M> {
    /// Send an application message through the network.
    Send { msg: M, dest: String },
    /// Arm a named timer that fires after `delay` time units.
    SetTimer { name: String, delay: u64 },
    /// Emit an externally observable local event.
    Local { msg: M },
}

/// The view of an [`Action`].
#[verifier::ext_equal]
pub enum ActionView<M> {
    Send { msg: M, dest: Seq<char> },
    SetTimer { name: Seq<char>, delay: u64 },
    Local { msg: M },
}

impl<M> View for Action<M> {
    type V = ActionView<M>;

    open spec fn view(&self) -> ActionView<M> {
        match self {
            Action::Send { msg, dest } => ActionView::Send { msg: *msg, dest: dest@ },
            Action::SetTimer { name, delay } => ActionView::SetTimer {
                name: name@,
                delay: *delay,
            },
            Action::Local { msg } => ActionView::Local { msg: *msg },
        }
    }
}

/// One entry of a node's append-only log of observable outputs: the logical
/// time at which the node emitted it, and the emitted message.
pub struct LocalEvent<M> {
    pub time: u64,
    pub msg: M,
}

impl<M> View for LocalEvent<M> {
    type V = LocalEvent<M>;

    open spec fn view(&self) -> LocalEvent<M> {
        *self
    }
}

} // verus!
