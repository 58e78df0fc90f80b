//! Sleep sort: each value becomes a delay, and the order in which the delays
//! run out is the order of the output.
//!
//! Threads, clocks and the result channel are driven by the caller. This
//! library holds the decisions of the protocol: which values are valid delays,
//! when a delay worker has waited long enough, and how the collector turns the
//! messages that arrive on the channel into the output sequence.
use vstd::prelude::*;

pub mod collect;
pub mod delay;
pub mod laws;

verus! {

} // verus!
