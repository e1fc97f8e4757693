//! The block network: a directed graph of named nodes whose edges carry the
//! blocks of the line.
//!
//! Nodes are integer identifiers; the edge from `a` to `b` holds the block a
//! train traverses when running from `a` to `b`. The graph is an arena of
//! edge records owned by one actor (the signaller), with id-based edges and
//! no back-pointers. Routing is structural only: successor and predecessor
//! lookup; multi-route selection is a non-goal, so "the" successor of a node
//! is the target of its first outgoing edge, in insertion order.

use crate::block::{Block, BlockType};
use crate::signal::{Owner, Signal, SignalColour};
use vstd::prelude::*;

verus! {

/// One edge of the network: the block carried between two nodes.
#[derive(Debug, Clone, PartialEq, Eq)]
pub struct EdgeRec {
    pub from: u64,
    pub to: u64,
    pub block: Block,
}

/// A directed block network.
#[derive(Debug, Clone, PartialEq, Eq)]
pub struct Network {
    pub edges: Vec<EdgeRec>,
}

/// The signal of a track block; a placeholder fresh signal for a station
/// block (whose signals live on its platforms).
pub open spec fn spec_track_signal(bt: BlockType) -> Signal {
    match bt {
        BlockType::Track { signal } => signal,
        BlockType::Station { platforms: _ } => Signal {
            colour: SignalColour::Green,
            owner: Owner::Signaller,
        },
    }
}

/// Two edges agreeing on everything but their signal state: endpoints,
/// length, limit, kind and platforms are equal.
pub open spec fn same_shape(e1: EdgeRec, e2: EdgeRec) -> bool {
    &&& e1.from == e2.from
    &&& e1.to == e2.to
    &&& e1.block.length == e2.block.length
    &&& e1.block.limit == e2.block.limit
    &&& match (e1.block.block_type, e2.block.block_type) {
        (BlockType::Track { signal: _ }, BlockType::Track { signal: _ }) => true,
        (
            BlockType::Station { platforms: p1 },
            BlockType::Station { platforms: p2 },
        ) => p1@ == p2@,
        _ => false,
    }
}

/// Two edge sequences of the same skeleton: only signal state may differ.
pub open spec fn same_skeleton(s1: Seq<EdgeRec>, s2: Seq<EdgeRec>) -> bool {
    s1.len() == s2.len() && forall|i: int| 0 <= i < s1.len() ==> same_shape(s1[i], #[trigger] s2[i])
}

impl Network {
    /// Some edge runs from `from` to `to`.
    pub open spec fn has_edge(s: Seq<EdgeRec>, from: u64, to: u64) -> bool {
        exists|i: int| 0 <= i < s.len() && (#[trigger] s[i]).from == from && s[i].to == to
    }

    /// `node` has an outgoing edge.
    pub open spec fn has_out(s: Seq<EdgeRec>, node: u64) -> bool {
        exists|i: int| 0 <= i < s.len() && (#[trigger] s[i]).from == node
    }

    /// `node` has an incoming edge.
    pub open spec fn has_in(s: Seq<EdgeRec>, node: u64) -> bool {
        exists|i: int| 0 <= i < s.len() && (#[trigger] s[i]).to == node
    }

    /// Index of the first edge out of `node`, or -1 when there is none.
    pub open spec fn first_out(s: Seq<EdgeRec>, node: u64) -> int
        decreases s.len(),
    {
        if s.len() == 0 {
            -1
        } else if s[0].from == node {
            0
        } else {
            let r = Self::first_out(s.drop_first(), node);
            if r == -1 {
                -1
            } else {
                r + 1
            }
        }
    }

    /// The index of the edge from `from` to `to` — well defined once such
    /// an edge exists and the network is well formed (edges are unique per
    /// ordered node pair).
    pub open spec fn edge_ix(s: Seq<EdgeRec>, from: u64, to: u64) -> int {
        choose|i: int| 0 <= i < s.len() && (#[trigger] s[i]).from == from && s[i].to == to
    }

    /// Every block carried by an edge is a track block.
    pub open spec fn track_only(s: Seq<EdgeRec>) -> bool {
        forall|i: int| 0 <= i < s.len() ==> (#[trigger] s[i]).block.block_type is Track
    }

    /// Structural sanity: at most one block per ordered node pair, and no
    /// block runs from a node to itself.
    pub open spec fn wf(s: Seq<EdgeRec>) -> bool {
        &&& forall|i: int, j: int|
            0 <= i < j < s.len() ==> !((#[trigger] s[i]).from == (#[trigger] s[j]).from && s[i].to
                == s[j].to)
        &&& forall|i: int| 0 <= i < s.len() ==> (#[trigger] s[i]).from != s[i].to
    }

    /// An empty network.
    pub fn new() -> (r: Network)
        ensures
            r.edges@ == Seq::<EdgeRec>::empty(),
    {
        Network { edges: Vec::new() }
    }

    /// Adds the block carried from `from` to `to`. Each ordered node pair
    /// carries at most one block, and no block follows itself.
    pub fn add_edge(&mut self, from: u64, to: u64, block: Block)
        requires
            from != to,
            !Self::has_edge(old(self).edges@, from, to),
        ensures
            final(self).edges@ == old(self).edges@.push(EdgeRec { from, to, block }),
            Self::wf(old(self).edges@) ==> Self::wf(final(self).edges@),
    {
        self.edges.push(EdgeRec { from, to, block });
    }

    /// Looks up the edge from `from` to `to`.
    pub fn find_edge(&self, from: u64, to: u64) -> (r: Option<usize>)
        ensures
            match r {
                Some(i) => i < self.edges@.len() && self.edges@[i as int].from == from
                    && self.edges@[i as int].to == to,
                None => !Self::has_edge(self.edges@, from, to),
            },
    {
        let n = self.edges.len();
        let mut i: usize = 0;
        while i < n
            invariant
                i <= n,
                n == self.edges.len(),
                forall|k: int|
                    0 <= k < i ==> !((#[trigger] self.edges@[k]).from == from && self.edges@[k].to
                        == to),
            decreases n - i,
        {
            if self.edges[i].from == from && self.edges[i].to == to {
                return Some(i);
            }
            i = i + 1;
        }
        None
    }

    /// The successor of `node`: the target of its first outgoing edge, or
    /// `None` for a node with no outgoing edge.
    pub fn first_out_target(&self, node: u64) -> (r: Option<u64>)
        ensures
            match r {
                Some(t) => Self::has_out(self.edges@, node) && 0 <= Self::first_out(
                    self.edges@,
                    node,
                ) < self.edges@.len() && self.edges@[Self::first_out(self.edges@, node)].from
                    == node && t == self.edges@[Self::first_out(self.edges@, node)].to,
                None => !Self::has_out(self.edges@, node),
            },
    {
        let n = self.edges.len();
        let mut i: usize = 0;
        while i < n
            invariant
                i <= n,
                n == self.edges.len(),
                forall|k: int| 0 <= k < i ==> (#[trigger] self.edges@[k]).from != node,
            decreases n - i,
        {
            if self.edges[i].from == node {
                proof {
                    lemma_first_out_at(self.edges@, node, i as int);
                }
                return Some(self.edges[i].to);
            }
            i = i + 1;
        }
        None
    }

    /// The predecessor of `node`: the source of its first incoming edge, or
    /// `None` for a node with no incoming edge.
    pub fn first_in_source(&self, node: u64) -> (r: Option<u64>)
        ensures
            match r {
                Some(f) => exists|i: int|
                    0 <= i < self.edges@.len() && (#[trigger] self.edges@[i]).to == node
                        && self.edges@[i].from == f && (forall|k: int|
                        0 <= k < i ==> (#[trigger] self.edges@[k]).to != node),
                None => !Self::has_in(self.edges@, node),
            },
    {
        let n = self.edges.len();
        let mut i: usize = 0;
        while i < n
            invariant
                i <= n,
                n == self.edges.len(),
                forall|k: int| 0 <= k < i ==> (#[trigger] self.edges@[k]).to != node,
            decreases n - i,
        {
            if self.edges[i].to == node {
                return Some(self.edges[i].from);
            }
            i = i + 1;
        }
        None
    }

    /// The indices of the edges into `node`, ascending.
    pub open spec fn incoming_indices(s: Seq<EdgeRec>, node: u64) -> Seq<int>
        decreases s.len(),
    {
        if s.len() == 0 {
            Seq::empty()
        } else {
            let init = Self::incoming_indices(s.drop_last(), node);
            if s.last().to == node {
                init.push(s.len() - 1)
            } else {
                init
            }
        }
    }

    /// The indices of all edges into `node`, in ascending order: exactly
    /// the predecessor edges walked during backward propagation.
    pub fn incoming(&self, node: u64) -> (r: Vec<usize>)
        ensures
            forall|j: int|
                0 <= j < r@.len() ==> (#[trigger] r@[j]) < self.edges@.len()
                    && self.edges@[r@[j] as int].to == node,
            forall|k: int|
                0 <= k < self.edges@.len() && (#[trigger] self.edges@[k]).to == node ==> exists|
                    j: int,
                |
                    0 <= j < r@.len() && r@[j] as int == k,
            forall|j1: int, j2: int| 0 <= j1 < j2 < r@.len() ==> r@[j1] < r@[j2],
            r@.len() == Self::incoming_indices(self.edges@, node).len(),
            forall|j: int|
                0 <= j < r@.len() ==> (#[trigger] r@[j]) as int == Self::incoming_indices(
                    self.edges@,
                    node,
                )[j],
    {
        let n = self.edges.len();
        let mut r: Vec<usize> = Vec::new();
        let mut i: usize = 0;
        while i < n
            invariant
                i <= n,
                n == self.edges.len(),
                forall|j: int|
                    0 <= j < r@.len() ==> (#[trigger] r@[j]) < i && self.edges@[r@[j] as int].to
                        == node,
                forall|k: int|
                    0 <= k < i && (#[trigger] self.edges@[k]).to == node ==> exists|j: int|
                        0 <= j < r@.len() && r@[j] as int == k,
                forall|j1: int, j2: int| 0 <= j1 < j2 < r@.len() ==> r@[j1] < r@[j2],
                r@.len() == Self::incoming_indices(self.edges@.take(i as int), node).len(),
                forall|j: int|
                    0 <= j < r@.len() ==> (#[trigger] r@[j]) as int == Self::incoming_indices(
                        self.edges@.take(i as int),
                        node,
                    )[j],
            decreases n - i,
        {
            proof {
                assert(self.edges@.take(i + 1).drop_last() =~= self.edges@.take(i as int));
                assert(self.edges@.take(i + 1).last() == self.edges@[i as int]);
            }
            if self.edges[i].to == node {
                let ghost r0 = r@;
                r.push(i);
                proof {
                    assert forall|k: int|
                        0 <= k < i + 1 && (#[trigger] self.edges@[k]).to == node implies exists|
                        j: int,
                    | 0 <= j < r@.len() && r@[j] as int == k by {
                        if k < i {
                            let j = choose|j: int| 0 <= j < r0.len() && r0[j] as int == k;
                            assert(r@[j] as int == k);
                        } else {
                            assert(r@[r@.len() - 1] as int == k);
                        }
                    }
                }
            }
            i = i + 1;
        }
        proof {
            assert(self.edges@.take(n as int) =~= self.edges@);
        }
        r
    }
}

/// `e` with its track signal replaced by `s`.
pub open spec fn with_track_signal(e: EdgeRec, s: Signal) -> EdgeRec {
    EdgeRec {
        block: Block { block_type: BlockType::Track { signal: s }, ..e.block },
        ..e
    }
}

impl Network {
    /// Applies the arbitration rule to the signal of the track block on
    /// edge `i` and reports whether the resulting aspect is restrictive,
    /// exactly as [`Signal::update`] does.
    pub fn update_track_signal(&mut self, i: usize, owner: Owner, colour: SignalColour) -> (r:
        bool)
        requires
            i < old(self).edges@.len(),
            old(self).edges@[i as int].block.block_type is Track,
        ensures
            final(self).edges@ == old(self).edges@.update(
                i as int,
                with_track_signal(
                    old(self).edges@[i as int],
                    spec_track_signal(old(self).edges@[i as int].block.block_type).apply(
                        owner,
                        colour,
                    ),
                ),
            ),
            r == (spec_track_signal(old(self).edges@[i as int].block.block_type).update_applies(
                owner,
                colour,
            ) && colour != SignalColour::Green),
    {
        let e = &mut self.edges[i];
        match &mut e.block.block_type {
            BlockType::Track { signal } => signal.update(owner, colour),
            BlockType::Station { platforms: _ } => {
                proof {
                    assert(false);
                }
                false
            },
        }
    }
}

/// Sameness of skeleton is transitive.
pub proof fn lemma_skeleton_trans(s1: Seq<EdgeRec>, s2: Seq<EdgeRec>, s3: Seq<EdgeRec>)
    requires
        same_skeleton(s1, s2),
        same_skeleton(s2, s3),
    ensures
        same_skeleton(s1, s3),
{
    assert forall|i: int| 0 <= i < s1.len() implies same_shape(s1[i], #[trigger] s3[i]) by {
        assert(same_shape(s1[i], s2[i]));
        assert(same_shape(s2[i], s3[i]));
    }
}

/// A node with an outgoing edge has a well-defined first one, and it leaves
/// that node.
pub proof fn lemma_first_out_props(s: Seq<EdgeRec>, node: u64)
    requires
        Network::has_out(s, node),
    ensures
        0 <= Network::first_out(s, node) < s.len(),
        s[Network::first_out(s, node)].from == node,
    decreases s.len(),
{
    if s[0].from != node {
        let w = choose|i: int| 0 <= i < s.len() && (#[trigger] s[i]).from == node;
        assert(s.drop_first()[w - 1] == s[w]);
        assert(Network::has_out(s.drop_first(), node));
        lemma_first_out_props(s.drop_first(), node);
        assert(s[Network::first_out(s.drop_first(), node) + 1] == s.drop_first()[Network::first_out(
            s.drop_first(),
            node,
        )]);
    }
}

/// The first outgoing edge is the match found by a forward scan: if no edge
/// out of `node` precedes `i` and edge `i` leaves `node`, then `i` is the
/// first.
pub proof fn lemma_first_out_at(s: Seq<EdgeRec>, node: u64, i: int)
    requires
        0 <= i < s.len(),
        s[i].from == node,
        forall|k: int| 0 <= k < i ==> (#[trigger] s[k]).from != node,
    ensures
        Network::first_out(s, node) == i,
    decreases i,
{
    if i > 0 {
        assert(s[0].from != node);
        assert forall|k: int| 0 <= k < i - 1 implies (#[trigger] s.drop_first()[k]).from
            != node by {
            assert(s.drop_first()[k] == s[k + 1]);
        }
        assert(s.drop_first()[i - 1] == s[i]);
        lemma_first_out_at(s.drop_first(), node, i - 1);
    }
}

} // verus!
