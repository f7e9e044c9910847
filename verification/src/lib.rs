//! A deterministic discrete-event simulation framework for exercising
//! distributed-system protocols under controlled network conditions.
//!
//! The engine delivers scheduled events in (time, insertion-order) order,
//! routes inter-node messages through a fault-injecting network model
//! (delay, loss, duplication, partitions, crashes), and dispatches delivered
//! events to pluggable node implementations.  All randomness comes from a
//! single seeded stream, so a run is a function of the seed and the sequence
//! of calls made against the [`system::System`] facade.
//!
//! Logical time, delays and the delivery counter are integers: a tick is
//! whatever unit the caller wants it to be, and additions saturate at the
//! horizon instead of wrapping.  The loss and duplication probabilities are
//! fixed-point fractions of [`RATE_SCALE`].

use vstd::prelude::*;

pub mod event;
pub mod laws;
pub mod net;
pub mod node;
pub mod rng;
pub mod sim;
pub mod system;

verus! {

/// Scale of the fixed-point probabilities used by the network model:
/// a rate of `RATE_SCALE` means "always", a rate of `0` means "never".
pub const RATE_SCALE: u64 = 1_000_000;

} // verus!
