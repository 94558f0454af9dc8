//! What the capture units and the relay stage of a layer share.

use vstd::prelude::*;

verus! {

/// Capacity of the bounded channel between the capture units of a layer and
/// its relay stage. A full channel holds the producers back; nothing is
/// dropped.
pub const CHANNEL_CAPACITY: usize = 8;

/// Outcome of one bounded wait of a relay stage on its channel.
#[derive(Debug)]
pub enum Received<M> {
    /// A capture unit handed over a message.
    Message(M),
    /// Nothing arrived within the wait.
    Timeout,
    /// Every capture unit is gone.
    Closed,
}

} // verus!
