//! The message protocol between drivers and the signaller.
//!
//! Messages are immutable values; no shared mutable state crosses between
//! the actors. A driver announces itself once with `HelloWorld` and asks
//! for the next block with `ReserveNextBlock`; the signaller answers with
//! `NewBlock` on a reservation and pushes `UpdateBlock` when a signal
//! change retargets an occupied block.

use crate::signal::SignalColour;
use vstd::prelude::*;

verus! {

/// A message from a driver to the signaller.
#[derive(Debug, Clone, Copy, PartialEq, Eq, Structural)]
pub enum TrainMessage {
    /// A train entering the network at `block_id`.
    HelloWorld { train_id: u64, block_id: u64 },
    /// The train crossed its current block boundary and asks for the next.
    ReserveNextBlock { train_id: u64 },
}

/// A message from the signaller to one driver. Limits are in the canonical
/// velocity unit (metres per second), lengths in metres.
#[derive(Debug, Clone, Copy, PartialEq, Eq, Structural)]
pub enum SignallerMessage {
    /// The reserved block: its identifier, current aspect, limit and length.
    NewBlock { new_block_id: u64, colour: SignalColour, limit: u32, length: u32 },
    /// A changed aspect for the block the train occupies.
    UpdateBlock { colour: SignalColour, limit: u32 },
}

impl SignallerMessage {
    /// Machine bounds a deliverable message satisfies: the limit fits the
    /// velocity bound and the length fits the position bound of the train
    /// model.
    pub open spec fn bounded(self) -> bool {
        match self {
            SignallerMessage::NewBlock { new_block_id: _, colour: _, limit, length } => limit <= 500
                && length <= 1_000_000_000,
            SignallerMessage::UpdateBlock { colour: _, limit } => limit <= 500,
        }
    }
}

} // verus!
