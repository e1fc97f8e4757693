//! Track and station blocks.
//!
//! A block is a stretch of line with a length, a speed limit (stored
//! pre-converted to the canonical velocity unit) and either a single signal
//! (a `Track` block) or an ordered row of platforms (a `Station` block).

use crate::conversion::{convert_to_mps, mph_to_mps};
use crate::signal::Signal;
use vstd::prelude::*;

verus! {

/// A station platform: its own signal, its usable length, and the train
/// occupying it, if any.
#[derive(Debug, Clone, Copy, PartialEq, Eq)]
pub struct Platform {
    pub signal: Signal,
    pub length: u32,
    pub occupant: Option<u64>,
}

impl Platform {
    /// A free platform with the given signal and length.
    pub fn new(signal: Signal, length: u32) -> (r: Platform)
        ensures
            r.signal == signal,
            r.length == length,
            r.occupant is None,
    {
        Platform { signal, length, occupant: None }
    }
}

/// What guards a block: one signal for plain track, a row of platforms for
/// a station.
#[derive(Debug, Clone, PartialEq, Eq)]
pub enum BlockType {
    Track { signal: Signal },
    Station { platforms: Vec<Platform> },
}

/// A block of the network: length, pre-converted speed limit, and its
/// track-or-station payload.
#[derive(Debug, Clone, PartialEq, Eq)]
pub struct Block {
    pub length: u32,
    pub limit: u32,
    pub block_type: BlockType,
}

/// The platforms of a block, or the empty sequence for a track block.
pub open spec fn spec_platforms(b: BlockType) -> Seq<Platform> {
    match b {
        BlockType::Track { signal: _ } => Seq::empty(),
        BlockType::Station { platforms } => platforms@,
    }
}

impl Block {
    /// A track block guarded by one signal. The limit is given in miles per
    /// hour and stored in canonical units.
    pub fn new_track(length: u32, limit: u32, signal: Signal) -> (r: Block)
        ensures
            r.length == length,
            r.limit == mph_to_mps(limit as int),
            r.block_type == (BlockType::Track { signal }),
    {
        Block { length, limit: convert_to_mps(limit), block_type: BlockType::Track { signal } }
    }

    /// A station block holding the given platforms. The limit is given in
    /// miles per hour and stored in canonical units.
    pub fn new_station(length: u32, limit: u32, platforms: Vec<Platform>) -> (r: Block)
        ensures
            r.length == length,
            r.limit == mph_to_mps(limit as int),
            r.block_type matches BlockType::Station { platforms: p } && p@ == platforms@,
    {
        Block { length, limit: convert_to_mps(limit), block_type: BlockType::Station { platforms } }
    }

    /// Appends a platform. Platforms may only be added to station blocks:
    /// adding one to a track block is a fatal configuration error, which
    /// the precondition excludes.
    pub fn add_platform(&mut self, platform: Platform)
        requires
            old(self).block_type is Station,
        ensures
            final(self).length == old(self).length,
            final(self).limit == old(self).limit,
            final(self).block_type is Station,
            spec_platforms(final(self).block_type) == spec_platforms(old(self).block_type).push(
                platform,
            ),
    {
        match &mut self.block_type {
            BlockType::Track { signal: _ } => {
                proof {
                    assert(false);
                }
            },
            BlockType::Station { platforms } => {
                platforms.push(platform);
            },
        }
    }
}

} // verus!
