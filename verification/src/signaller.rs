//! The signaller: the actor that owns the network and the position index.
//!
//! Once per tick it drains the drivers' pending messages. A `HelloWorld`
//! registers the train, records its position and reserves the block ahead;
//! a `ReserveNextBlock` moves the train's position entry one block forward
//! and reserves again. Every reservation answers the train with the
//! reserved block's aspect, limit and length, and cascades a backward
//! signal propagation from the block being vacated: each predecessor block
//! is tightened one aspect step less than the one in front of it, and a
//! train occupying a retightened block is told at once.
//!
//! Channels are the embedding program's concern: the inbox is handed in as
//! a queue and the outbound messages are returned addressed by train.

use crate::bihashmap::BiHashMap;
use crate::block::BlockType;
use crate::message::{SignallerMessage, TrainMessage};
use crate::network::{
    lemma_first_out_props, lemma_skeleton_trans, same_shape, same_skeleton, spec_track_signal,
    EdgeRec, Network,
};
use crate::signal::{Owner, SignalColour};
use vstd::prelude::*;
use vstd::std_specs::cmp::PartialEqSpec;

verus! {

/// Some pair of the position index claims `block_id`.
pub open spec fn pos_has_block(pos: Seq<(u64, u64)>, block_id: u64) -> bool {
    exists|i: int| 0 <= i < pos.len() && (#[trigger] pos[i]).0 == block_id
}

/// Some pair of the position index places `train_id`.
pub open spec fn pos_has_train(pos: Seq<(u64, u64)>, train_id: u64) -> bool {
    exists|i: int| 0 <= i < pos.len() && (#[trigger] pos[i]).1 == train_id
}

/// The block occupied by `train_id` — well defined once the index is
/// consistent and the train is placed.
pub open spec fn pos_block_of(pos: Seq<(u64, u64)>, train_id: u64) -> u64 {
    (pos[choose|i: int| 0 <= i < pos.len() && (#[trigger] pos[i]).1 == train_id]).0
}

/// A `HelloWorld { train_id, block_id }` is admissible when the entry block
/// has a successor and neither the block nor the train is already in the
/// position index.
pub open spec fn spec_hello_ok(
    edges: Seq<EdgeRec>,
    pos: Seq<(u64, u64)>,
    train_id: u64,
    block_id: u64,
) -> bool {
    &&& Network::has_out(edges, block_id)
    &&& !pos_has_block(pos, block_id)
    &&& !pos_has_train(pos, train_id)
}

/// A `ReserveNextBlock { train_id }` is admissible when the train is
/// placed, its block has a successor, and that successor is not claimed by
/// another train.
pub open spec fn spec_reserve_ok(edges: Seq<EdgeRec>, pos: Seq<(u64, u64)>, train_id: u64) -> bool {
    &&& pos_has_train(pos, train_id)
    &&& Network::has_out(edges, pos_block_of(pos, train_id))
    &&& !pos_has_block(
        BiHashMap::<u64, u64>::drop_keys(pos, pos_block_of(pos, train_id), train_id),
        edges[Network::first_out(edges, pos_block_of(pos, train_id))].to,
    )
}

/// Draining a message queue: whether every message is admissible at its
/// turn, and the position index, registration list, network signal state
/// and outbound messages that result. The fold stops at the first
/// inadmissible message.
pub open spec fn spec_drain(
    edges: Seq<EdgeRec>,
    pos: Seq<(u64, u64)>,
    reg: Seq<u64>,
    inbox: Seq<TrainMessage>,
) -> (bool, Seq<(u64, u64)>, Seq<u64>, Seq<EdgeRec>, Seq<(u64, SignallerMessage)>)
    decreases inbox.len(),
{
    if inbox.len() == 0 {
        (true, pos, reg, edges, Seq::empty())
    } else {
        match inbox[0] {
            TrainMessage::HelloWorld { train_id, block_id } => {
                if spec_hello_ok(edges, pos, train_id, block_id) {
                    let nb = edges[Network::first_out(edges, block_id)].to;
                    let msg = spec_new_block_msg(edges, block_id, nb, train_id);
                    let pos1 = pos.push((block_id, train_id));
                    let prop = spec_propagate(
                        edges,
                        pos1,
                        block_id,
                        Owner::Train { id: train_id },
                        SignalColour::Red,
                    );
                    let rec = spec_drain(prop.0, pos1, reg.push(train_id), inbox.drop_first());
                    (rec.0, rec.1, rec.2, rec.3, seq![msg] + prop.1 + rec.4)
                } else {
                    (false, pos, reg, edges, Seq::empty())
                }
            },
            TrainMessage::ReserveNextBlock { train_id } => {
                if spec_reserve_ok(edges, pos, train_id) {
                    let b = pos_block_of(pos, train_id);
                    let nb = edges[Network::first_out(edges, b)].to;
                    let msg = spec_new_block_msg(edges, b, nb, train_id);
                    let pos1 = BiHashMap::<u64, u64>::drop_keys(pos, b, train_id).push(
                        (nb, train_id),
                    );
                    let prop = spec_propagate(
                        edges,
                        pos1,
                        b,
                        Owner::Train { id: train_id },
                        SignalColour::Red,
                    );
                    let rec = spec_drain(prop.0, pos1, reg, inbox.drop_first());
                    (rec.0, rec.1, rec.2, rec.3, seq![msg] + prop.1 + rec.4)
                } else {
                    (false, pos, reg, edges, Seq::empty())
                }
            },
        }
    }
}

/// The train occupying `node` according to the position index, if any —
/// well defined once the index is consistent.
pub open spec fn occupant_of(pos: Seq<(u64, u64)>, node: u64) -> Option<u64> {
    if pos_has_block(pos, node) {
        Some((pos[choose|i: int| 0 <= i < pos.len() && (#[trigger] pos[i]).0 == node]).1)
    } else {
        None
    }
}

/// The backward cascade anchored at `anchor`: what every predecessor edge's
/// signal becomes and which update messages go out, in walking order.
pub open spec fn spec_propagate(
    edges: Seq<EdgeRec>,
    pos: Seq<(u64, u64)>,
    anchor: u64,
    owner: Owner,
    colour: SignalColour,
) -> (Seq<EdgeRec>, Seq<(u64, SignallerMessage)>)
    decreases 5 - colour.rank(), 0int,
{
    spec_prop_list(edges, pos, Network::incoming_indices(edges, anchor), owner, colour)
}

/// One cascade level: the predecessor edges at `idxs` take the proposed
/// aspect under arbitration; each restrictive result notifies the occupant
/// of the block behind it and recurses one aspect step closer to `Green`.
pub open spec fn spec_prop_list(
    edges: Seq<EdgeRec>,
    pos: Seq<(u64, u64)>,
    idxs: Seq<int>,
    owner: Owner,
    colour: SignalColour,
) -> (Seq<EdgeRec>, Seq<(u64, SignallerMessage)>)
    decreases 4 - colour.rank(), idxs.len(),
{
    if idxs.len() == 0 {
        (edges, Seq::empty())
    } else {
        let i = idxs[0];
        if !(0 <= i < edges.len()) {
            (edges, Seq::empty())
        } else {
            let e = edges[i];
            let sig = spec_track_signal(e.block.block_type);
            let restrictive = sig.update_applies(owner, colour) && colour != SignalColour::Green;
            let edges1 = edges.update(i, crate::network::with_track_signal(e, sig.apply(owner, colour)));
            if restrictive {
                let notice = match occupant_of(pos, e.from) {
                    Some(t) => seq![
                        (
                            t,
                            SignallerMessage::UpdateBlock {
                                colour: colour.spec_next(),
                                limit: e.block.limit,
                            },
                        ),
                    ],
                    None => Seq::empty(),
                };
                let rec = spec_propagate(edges1, pos, e.from, owner, colour.spec_next());
                let rest = spec_prop_list(rec.0, pos, idxs.drop_first(), owner, colour);
                (rest.0, notice + rec.1 + rest.1)
            } else {
                let rest = spec_prop_list(edges1, pos, idxs.drop_first(), owner, colour);
                (rest.0, rest.1)
            }
        }
    }
}

/// The reservation answer for the edge from `block_id` to `next_block_id`:
/// the reserved block's identifier, current aspect, limit and length,
/// addressed to the reserving train.
pub open spec fn spec_new_block_msg(
    edges: Seq<EdgeRec>,
    block_id: u64,
    next_block_id: u64,
    train_id: u64,
) -> (u64, SignallerMessage) {
    let e = edges[Network::edge_ix(edges, block_id, next_block_id)];
    (
        train_id,
        SignallerMessage::NewBlock {
            new_block_id: next_block_id,
            colour: spec_track_signal(e.block.block_type).colour,
            limit: e.block.limit,
            length: e.block.length,
        },
    )
}

/// The signaller's state: the network it owns, the bidirectional position
/// index, and the trains registered for outbound messages.
#[derive(Debug)]
pub struct Signaller {
    pub network: Network,
    pub train_positions: BiHashMap<u64, u64>,
    pub registered: Vec<u64>,
}

impl Signaller {
    /// Every block's limit fits the train model's velocity bound and its
    /// length the position bound.
    pub open spec fn blocks_bounded(s: Seq<EdgeRec>) -> bool {
        forall|i: int|
            0 <= i < s.len() ==> (#[trigger] s[i]).block.limit <= 500 && s[i].block.length
                <= 1_000_000_000
    }

    /// The signaller's invariant: a well-formed all-track bounded network,
    /// a consistent position index, and every placed train registered.
    pub open spec fn wf(self) -> bool {
        &&& Network::wf(self.network.edges@)
        &&& Network::track_only(self.network.edges@)
        &&& Self::blocks_bounded(self.network.edges@)
        &&& BiHashMap::<u64, u64>::consistent(self.train_positions@)
        &&& forall|i: int|
            0 <= i < self.train_positions@.len() ==> self.registered@.contains(
                (#[trigger] self.train_positions@[i]).1,
            )
    }

    /// Takes ownership of a built network, with no train placed yet.
    /// Station blocks are future work (their reservation and propagation
    /// behaviour is deliberately unimplemented), so the network is all
    /// track.
    pub fn new(network: Network) -> (r: Signaller)
        requires
            Network::wf(network.edges@),
            Network::track_only(network.edges@),
            Self::blocks_bounded(network.edges@),
        ensures
            r.network == network,
            r.train_positions@ == Seq::<(u64, u64)>::empty(),
            r.registered@ == Seq::<u64>::empty(),
            r.wf(),
    {
        Signaller { network, train_positions: BiHashMap::new(), registered: Vec::new() }
    }

    /// The single successor of `block_id` on the route: the target of its
    /// first outgoing edge. A node without one is a malformed route, which
    /// the precondition excludes. Per-train route selection is a non-goal;
    /// the train parameter is unused until junction choice keys on it.
    pub fn next_in_path(&self, _train_id: u64, block_id: u64) -> (r: u64)
        requires
            Network::has_out(self.network.edges@, block_id),
        ensures
            Network::first_out(self.network.edges@, block_id) >= 0,
            r == self.network.edges@[Network::first_out(self.network.edges@, block_id)].to,
    {
        match self.network.first_out_target(block_id) {
            Some(t) => t,
            None => unreached(),
        }
    }

    /// The incoming analogue of [`Signaller::next_in_path`]: the source of
    /// the first edge into `block_id`.
    pub fn prev_in_path(&self, _train_id: u64, block_id: u64) -> (r: u64)
        requires
            Network::has_in(self.network.edges@, block_id),
        ensures
            exists|i: int|
                0 <= i < self.network.edges@.len() && (#[trigger] self.network.edges@[i]).to
                    == block_id && self.network.edges@[i].from == r && (forall|k: int|
                    0 <= k < i ==> (#[trigger] self.network.edges@[k]).to != block_id),
    {
        match self.network.first_in_source(block_id) {
            Some(f) => f,
            None => unreached(),
        }
    }

    /// Cascading backward propagation from `block_id`: each predecessor
    /// block's signal takes the proposed aspect under the arbitration rule;
    /// where the result is restrictive, the cascade recurses one aspect
    /// step closer to `Green`, and a train occupying the retightened block
    /// is sent the propagated aspect and that block's limit at once. The
    /// network's new signal state and the messages produced are exactly
    /// [`spec_propagate`] of the old state.
    ///
    /// Termination is by the aspect ladder: the cascade only recurses when
    /// the aspect it applied was restrictive, and each recursion steps the
    /// aspect toward `Green`, a fixed point at which `update` reports
    /// non-restrictive. On a closed loop shorter than the aspect ladder the
    /// cascade wraps around and revisits edges it set earlier, and the
    /// owner's self-update then applies the later, looser aspect.
    #[verifier::rlimit(100)]
    pub fn propagate_signal(
        &mut self,
        block_id: u64,
        owner: Owner,
        colour: SignalColour,
        out: &mut Vec<(u64, SignallerMessage)>,
    )
        requires
            old(self).wf(),
        ensures
            final(self).wf(),
            same_skeleton(old(self).network.edges@, final(self).network.edges@),
            final(self).train_positions == old(self).train_positions,
            final(self).registered == old(self).registered,
            final(self).network.edges@ == spec_propagate(
                old(self).network.edges@,
                old(self).train_positions@,
                block_id,
                owner,
                colour,
            ).0,
            final(out)@ == old(out)@ + spec_propagate(
                old(self).network.edges@,
                old(self).train_positions@,
                block_id,
                owner,
                colour,
            ).1,
            forall|i: int|
                0 <= i < final(self).network.edges@.len() ==> (
                #[trigger] final(self).network.edges@[i]).block
                    == old(self).network.edges@[i].block || spec_track_signal(
                    final(self).network.edges@[i].block.block_type,
                ).owner == owner,
            old(out)@.is_prefix_of(final(out)@),
            forall|j: int|
                old(out)@.len() <= j < final(out)@.len() ==> (#[trigger] final(out)@[j]).1
                    is UpdateBlock && final(out)@[j].1.bounded()
                    && old(self).registered@.contains(final(out)@[j].0),
        decreases 4 - colour.rank(),
    {
        let ghost edges0 = self.network.edges@;
        let ghost pos0 = self.train_positions@;
        let ghost out0 = out@;
        let ghost idxs_spec = Network::incoming_indices(edges0, block_id);
        let ghost tgt = spec_prop_list(edges0, pos0, idxs_spec, owner, colour);
        let idxs = self.network.incoming(block_id);
        proof {
            assert(idxs_spec.skip(0) =~= idxs_spec);
            assert(out@.skip(out0.len() as int) =~= Seq::<(u64, SignallerMessage)>::empty());
            assert(tgt.1 =~= out@.skip(out0.len() as int) + tgt.1);
        }
        let n = idxs.len();
        let mut j: usize = 0;
        while j < n
            invariant
                j <= n,
                n == idxs@.len(),
                forall|k: int|
                    0 <= k < idxs@.len() ==> (#[trigger] idxs@[k]) < edges0.len()
                        && edges0[idxs@[k] as int].to == block_id,
                idxs@.len() == idxs_spec.len(),
                forall|k: int| 0 <= k < idxs@.len() ==> (#[trigger] idxs@[k]) as int == idxs_spec[k],
                self.wf(),
                same_skeleton(edges0, self.network.edges@),
                self.train_positions == old(self).train_positions,
                self.registered == old(self).registered,
                pos0 == self.train_positions@,
                forall|ii: int|
                    0 <= ii < self.network.edges@.len() ==> (
                    #[trigger] self.network.edges@[ii]).block == edges0[ii].block
                        || spec_track_signal(self.network.edges@[ii].block.block_type).owner
                        == owner,
                tgt == spec_prop_list(edges0, pos0, idxs_spec, owner, colour),
                spec_prop_list(self.network.edges@, pos0, idxs_spec.skip(j as int), owner, colour).0
                    == tgt.0,
                tgt.1 == out@.skip(out0.len() as int) + spec_prop_list(
                    self.network.edges@,
                    pos0,
                    idxs_spec.skip(j as int),
                    owner,
                    colour,
                ).1,
                out0 == old(out)@,
                out0.is_prefix_of(out@),
                forall|jj: int|
                    out0.len() <= jj < out@.len() ==> (#[trigger] out@[jj]).1 is UpdateBlock
                        && out@[jj].1.bounded() && old(self).registered@.contains(out@[jj].0),
            decreases n - j,
        {
            let i = idxs[j];
            let ghost out_entry = out@;
            proof {
                assert(self.network.edges@.len() == edges0.len());
                assert(idxs_spec.skip(j as int)[0] == idxs_spec[j as int]);
                assert(idxs_spec.skip(j as int).drop_first() =~= idxs_spec.skip(j + 1));
            }
            let prev_node = self.network.edges[i].from;
            let lim = self.network.edges[i].block.limit;
            let ghost pre = self.network.edges@;
            let ghost rem = spec_prop_list(pre, pos0, idxs_spec.skip(j as int), owner, colour);
            let restrictive = self.network.update_track_signal(i, owner, colour);
            proof {
                assert forall|k: int|
                    0 <= k < pre.len() implies same_shape(
                    pre[k],
                    #[trigger] self.network.edges@[k],
                ) by {
                    if k != i {
                        assert(self.network.edges@[k] == pre[k]);
                    }
                }
                lemma_skeleton_trans(edges0, pre, self.network.edges@);
                assert forall|ii: int|
                    0 <= ii < self.network.edges@.len() implies (
                #[trigger] self.network.edges@[ii]).block == edges0[ii].block || spec_track_signal(
                    self.network.edges@[ii].block.block_type,
                ).owner == owner by {
                    if ii != i as int {
                        assert(self.network.edges@[ii] == pre[ii]);
                        assert(pre[ii].block == edges0[ii].block || spec_track_signal(
                            pre[ii].block.block_type,
                        ).owner == owner);
                    } else {
                        let sig = spec_track_signal(pre[i as int].block.block_type);
                        if sig.update_applies(owner, colour) {
                            assert(spec_track_signal(
                                self.network.edges@[ii].block.block_type,
                            ).owner == owner);
                        } else {
                            assert(sig.apply(owner, colour) == sig);
                            assert(pre[i as int].block.block_type == (BlockType::Track {
                                signal: sig,
                            }));
                            assert(self.network.edges@[ii].block == pre[ii].block);
                        }
                    }
                }
            }
            if restrictive {
                let next_colour = colour.next();
                let occupant = self.train_positions.get(&prev_node, &0);
                match occupant.0 {
                    Some(tid) => {
                        proof {
                            let pi = choose|pi: int|
                                0 <= pi < self.train_positions@.len() && (
                                #[trigger] self.train_positions@[pi]).0.eq_spec(&prev_node)
                                    && self.train_positions@[pi].1 == tid;
                            assert(self.registered@.contains(self.train_positions@[pi].1));
                            assert(pre[i as int].block.limit <= 500);
                            assert(pos_has_block(pos0, prev_node));
                            let c = choose|c: int|
                                0 <= c < pos0.len() && (#[trigger] pos0[c]).0 == prev_node;
                            if c != pi {
                                assert(false);
                            }
                            assert(occupant_of(pos0, prev_node) == Some(tid));
                        }
                        out.push(
                            (tid, SignallerMessage::UpdateBlock { colour: next_colour, limit: lim }),
                        );
                        proof {
                            assert(out@ =~= out_entry + seq![
                                (
                                    tid,
                                    SignallerMessage::UpdateBlock {
                                        colour: colour.spec_next(),
                                        limit: pre[i as int].block.limit,
                                    },
                                ),
                            ]);
                            assert(out0.is_prefix_of(out@));
                        }
                    },
                    None => {
                        proof {
                            assert(occupant_of(pos0, prev_node) is None);
                            assert(out@ =~= out_entry + Seq::<(u64, SignallerMessage)>::empty());
                        }
                    },
                }
                let ghost mid = self.network.edges@;
                let ghost outmid = out@;
                self.propagate_signal(prev_node, owner, next_colour, out);
                proof {
                    lemma_skeleton_trans(edges0, mid, self.network.edges@);
                    assert forall|jj: int|
                        out0.len() <= jj < out@.len() implies (#[trigger] out@[jj]).1
                        is UpdateBlock && out@[jj].1.bounded() && old(self).registered@.contains(
                        out@[jj].0,
                    ) by {
                        if jj < outmid.len() {
                            assert(out@[jj] == outmid[jj]);
                        }
                    }
                    assert(out0 =~= out@.subrange(0, out0.len() as int));
                    assert forall|ii: int|
                        0 <= ii < self.network.edges@.len() implies (
                    #[trigger] self.network.edges@[ii]).block == edges0[ii].block
                        || spec_track_signal(self.network.edges@[ii].block.block_type).owner
                        == owner by {
                        if self.network.edges@[ii].block == mid[ii].block {
                            assert(mid[ii].block == edges0[ii].block || spec_track_signal(
                                mid[ii].block.block_type,
                            ).owner == owner);
                        }
                    }
                    // the remaining fold steps to the next index
                    let e = pre[i as int];
                    let sig = spec_track_signal(e.block.block_type);
                    let edges1 = pre.update(
                        i as int,
                        crate::network::with_track_signal(e, sig.apply(owner, colour)),
                    );
                    assert(mid == edges1);
                    let notice = match occupant_of(pos0, e.from) {
                        Some(t) => seq![
                            (
                                t,
                                SignallerMessage::UpdateBlock {
                                    colour: colour.spec_next(),
                                    limit: e.block.limit,
                                },
                            ),
                        ],
                        None => Seq::<(u64, SignallerMessage)>::empty(),
                    };
                    let rec = spec_propagate(edges1, pos0, e.from, owner, colour.spec_next());
                    assert(self.network.edges@ == rec.0);
                    assert(out@ == outmid + rec.1);
                    let rest = spec_prop_list(
                        rec.0,
                        pos0,
                        idxs_spec.skip(j + 1),
                        owner,
                        colour,
                    );
                    assert(rem == (rest.0, notice + rec.1 + rest.1));
                    assert(outmid =~= out_entry + notice);
                    assert(out@.skip(out0.len() as int) =~= out_entry.skip(out0.len() as int)
                        + notice + rec.1);
                    assert(tgt.1 == out@.skip(out0.len() as int) + rest.1);
                }
            } else {
                proof {
                    let e = pre[i as int];
                    let sig = spec_track_signal(e.block.block_type);
                    let edges1 = pre.update(
                        i as int,
                        crate::network::with_track_signal(e, sig.apply(owner, colour)),
                    );
                    assert(self.network.edges@ == edges1);
                    let rest = spec_prop_list(
                        edges1,
                        pos0,
                        idxs_spec.skip(j + 1),
                        owner,
                        colour,
                    );
                    assert(rem == (rest.0, rest.1));
                }
            }
            j = j + 1;
        }
        proof {
            assert(idxs_spec.skip(n as int) =~= Seq::<int>::empty());
            assert(out@ =~= out0 + out@.skip(out0.len() as int));
        }
    }

    /// Reserves the block from `block_id` to `next_block_id` for
    /// `train_id`: answers the train with that block's aspect, limit and
    /// length, then propagates `Red` in that train's name backward from
    /// `block_id`, locking the block being vacated as occupied.
    fn reserve_block(
        &mut self,
        block_id: u64,
        next_block_id: u64,
        train_id: u64,
        out: &mut Vec<(u64, SignallerMessage)>,
    )
        requires
            old(self).wf(),
            Network::has_edge(old(self).network.edges@, block_id, next_block_id),
            old(self).registered@.contains(train_id),
        ensures
            final(self).wf(),
            same_skeleton(old(self).network.edges@, final(self).network.edges@),
            final(self).train_positions == old(self).train_positions,
            final(self).registered == old(self).registered,
            old(out)@.is_prefix_of(final(out)@),
            final(self).network.edges@ == spec_propagate(
                old(self).network.edges@,
                old(self).train_positions@,
                block_id,
                Owner::Train { id: train_id },
                SignalColour::Red,
            ).0,
            final(out)@ == old(out)@.push(
                spec_new_block_msg(old(self).network.edges@, block_id, next_block_id, train_id),
            ) + spec_propagate(
                old(self).network.edges@,
                old(self).train_positions@,
                block_id,
                Owner::Train { id: train_id },
                SignalColour::Red,
            ).1,
            forall|j: int|
                old(out)@.len() <= j < final(out)@.len() ==> (#[trigger] final(out)@[j]).1.bounded()
                    && old(self).registered@.contains(final(out)@[j].0),
    {
        let idx = match self.network.find_edge(block_id, next_block_id) {
            Some(i) => i,
            None => unreached(),
        };
        let colour = match &self.network.edges[idx].block.block_type {
            BlockType::Track { signal } => signal.colour,
            BlockType::Station { platforms: _ } => unreached(),
        };
        let limit = self.network.edges[idx].block.limit;
        let length = self.network.edges[idx].block.length;
        out.push(
            (
                train_id,
                SignallerMessage::NewBlock { new_block_id: next_block_id, colour, limit, length },
            ),
        );
        proof {
            assert forall|i: int|
                0 <= i < old(self).network.edges@.len() && (
                #[trigger] old(self).network.edges@[i]).from == block_id
                    && old(self).network.edges@[i].to == next_block_id implies i == idx as int by {
                if i != idx as int {
                    assert(!Network::wf(old(self).network.edges@));
                }
            }
            assert(Network::edge_ix(old(self).network.edges@, block_id, next_block_id) == idx as int);
            assert(out@ == old(out)@.push(
                spec_new_block_msg(old(self).network.edges@, block_id, next_block_id, train_id),
            ));
        }
        let ghost outmid = out@;
        self.propagate_signal(block_id, Owner::Train { id: train_id }, SignalColour::Red, out);
        proof {
            assert(outmid.is_prefix_of(out@));
            assert(out@[old(out)@.len() as int] == outmid[old(out)@.len() as int]);
            assert forall|j: int|
                old(out)@.len() <= j < out@.len() implies (#[trigger] out@[j]).1.bounded() && old(
                self,
            ).registered@.contains(out@[j].0) by {
                if j < outmid.len() {
                    assert(out@[j] == outmid[j]);
                    assert(Self::blocks_bounded(old(self).network.edges@));
                    assert(old(self).network.edges@[idx as int].block.limit <= 500);
                    assert(old(self).network.edges@[idx as int].block.length <= 1_000_000_000);
                }
            }
            assert(old(out)@ =~= out@.subrange(0, old(out)@.len() as int));
        }
    }

    /// Handles a `HelloWorld`: registers the train's return route, records
    /// its position at the entry block, and reserves the block ahead.
    fn process_hello(&mut self, train_id: u64, block_id: u64, out: &mut Vec<(u64, SignallerMessage)>)
        requires
            old(self).wf(),
            spec_hello_ok(old(self).network.edges@, old(self).train_positions@, train_id, block_id),
        ensures
            final(self).wf(),
            same_skeleton(old(self).network.edges@, final(self).network.edges@),
            final(self).train_positions@ == old(self).train_positions@.push((block_id, train_id)),
            final(self).registered@ == old(self).registered@.push(train_id),
            old(out)@.is_prefix_of(final(out)@),
            final(self).network.edges@ == spec_propagate(
                old(self).network.edges@,
                old(self).train_positions@.push((block_id, train_id)),
                block_id,
                Owner::Train { id: train_id },
                SignalColour::Red,
            ).0,
            final(out)@ == old(out)@.push(
                spec_new_block_msg(
                    old(self).network.edges@,
                    block_id,
                    old(self).network.edges@[Network::first_out(
                        old(self).network.edges@,
                        block_id,
                    )].to,
                    train_id,
                ),
            ) + spec_propagate(
                old(self).network.edges@,
                old(self).train_positions@.push((block_id, train_id)),
                block_id,
                Owner::Train { id: train_id },
                SignalColour::Red,
            ).1,
            forall|j: int|
                old(out)@.len() <= j < final(out)@.len() ==> (#[trigger] final(out)@[j]).1.bounded()
                    && final(self).registered@.contains(final(out)@[j].0),
    {
        self.registered.push(train_id);
        proof {
            lemma_push_contains(old(self).registered@, train_id);
        }
        let next_block_id = self.next_in_path(train_id, block_id);
        proof {
            lemma_first_out_props(self.network.edges@, block_id);
            assert(Network::has_edge(self.network.edges@, block_id, next_block_id));
        }
        self.train_positions.insert(block_id, train_id);
        proof {
            lemma_push_consistent(old(self).train_positions@, block_id, train_id);
            assert forall|i: int|
                0 <= i < self.train_positions@.len() implies self.registered@.contains(
                (#[trigger] self.train_positions@[i]).1,
            ) by {
                if i < old(self).train_positions@.len() {
                    assert(self.train_positions@[i] == old(self).train_positions@[i]);
                    assert(old(self).registered@.contains(old(self).train_positions@[i].1));
                } else {
                    assert(self.train_positions@[i] == (block_id, train_id));
                }
            }
        }
        self.reserve_block(block_id, next_block_id, train_id, out);
    }

    /// Handles a `ReserveNextBlock`: moves the train's position entry one
    /// block forward (remove and insert are paired) and reserves the block
    /// it is entering.
    fn process_reserve(&mut self, train_id: u64, out: &mut Vec<(u64, SignallerMessage)>)
        requires
            old(self).wf(),
            spec_reserve_ok(old(self).network.edges@, old(self).train_positions@, train_id),
        ensures
            final(self).wf(),
            same_skeleton(old(self).network.edges@, final(self).network.edges@),
            final(self).registered@ == old(self).registered@,
            final(self).train_positions@ == BiHashMap::<u64, u64>::drop_keys(
                old(self).train_positions@,
                pos_block_of(old(self).train_positions@, train_id),
                train_id,
            ).push(
                (
                    old(self).network.edges@[Network::first_out(
                        old(self).network.edges@,
                        pos_block_of(old(self).train_positions@, train_id),
                    )].to,
                    train_id,
                ),
            ),
            old(out)@.is_prefix_of(final(out)@),
            final(self).network.edges@ == spec_propagate(
                old(self).network.edges@,
                BiHashMap::<u64, u64>::drop_keys(
                    old(self).train_positions@,
                    pos_block_of(old(self).train_positions@, train_id),
                    train_id,
                ).push(
                    (
                        old(self).network.edges@[Network::first_out(
                            old(self).network.edges@,
                            pos_block_of(old(self).train_positions@, train_id),
                        )].to,
                        train_id,
                    ),
                ),
                pos_block_of(old(self).train_positions@, train_id),
                Owner::Train { id: train_id },
                SignalColour::Red,
            ).0,
            final(out)@ == old(out)@.push(
                spec_new_block_msg(
                    old(self).network.edges@,
                    pos_block_of(old(self).train_positions@, train_id),
                    old(self).network.edges@[Network::first_out(
                        old(self).network.edges@,
                        pos_block_of(old(self).train_positions@, train_id),
                    )].to,
                    train_id,
                ),
            ) + spec_propagate(
                old(self).network.edges@,
                BiHashMap::<u64, u64>::drop_keys(
                    old(self).train_positions@,
                    pos_block_of(old(self).train_positions@, train_id),
                    train_id,
                ).push(
                    (
                        old(self).network.edges@[Network::first_out(
                            old(self).network.edges@,
                            pos_block_of(old(self).train_positions@, train_id),
                        )].to,
                        train_id,
                    ),
                ),
                pos_block_of(old(self).train_positions@, train_id),
                Owner::Train { id: train_id },
                SignalColour::Red,
            ).1,
            forall|j: int|
                old(out)@.len() <= j < final(out)@.len() ==> (#[trigger] final(out)@[j]).1.bounded()
                    && final(self).registered@.contains(final(out)@[j].0),
    {
        let ghost pos0 = self.train_positions@;
        let got = self.train_positions.get(&0, &train_id);
        let block_id = match got.1 {
            Some(bk) => bk,
            None => unreached(),
        };
        proof {
            let i = choose|i: int|
                0 <= i < pos0.len() && (#[trigger] pos0[i]).1.eq_spec(&train_id) && pos0[i].0
                    == block_id;
            let j = choose|j: int| 0 <= j < pos0.len() && (#[trigger] pos0[j]).1 == train_id;
            if i != j {
                assert(!pos0[i].1.eq_spec(&pos0[j].1) || !pos0[i].0.eq_spec(&pos0[j].0) || true);
                assert(false);
            }
            assert(block_id == pos_block_of(pos0, train_id));
        }
        let next_block_id = self.next_in_path(train_id, block_id);
        self.train_positions.remove(&block_id, &train_id);
        let ghost dropped = self.train_positions@;
        proof {
            lemma_drop_keys_props(pos0, block_id, train_id);
            assert forall|i: int|
                0 <= i < dropped.len() implies self.registered@.contains(
                (#[trigger] dropped[i]).1,
            ) by {
                let k = choose|k: int| 0 <= k < pos0.len() && dropped[i] == pos0[k];
                assert(self.registered@.contains(pos0[k].1));
            }
            assert(!pos_has_block(dropped, next_block_id));
            assert(!pos_has_train(dropped, train_id));
        }
        self.train_positions.insert(next_block_id, train_id);
        proof {
            lemma_push_consistent(dropped, next_block_id, train_id);
            assert forall|i: int|
                0 <= i < self.train_positions@.len() implies self.registered@.contains(
                (#[trigger] self.train_positions@[i]).1,
            ) by {
                if i < dropped.len() {
                    assert(self.train_positions@[i] == dropped[i]);
                } else {
                    assert(self.train_positions@[i] == (next_block_id, train_id));
                    let j = choose|j: int| 0 <= j < pos0.len() && (#[trigger] pos0[j]).1 == train_id;
                    assert(self.registered@.contains(pos0[j].1));
                }
            }
            lemma_first_out_props(self.network.edges@, block_id);
            assert(Network::has_edge(self.network.edges@, block_id, next_block_id));
        }
        self.reserve_block(block_id, next_block_id, train_id, out);
    }

    /// Drains one tick's inbox in order: each message is processed against
    /// the state its predecessors left, exactly as [`spec_drain`] folds it —
    /// the resulting position index, registration list, signal state and
    /// outbound messages are all pinned by that fold. An inadmissible
    /// message — an unknown train, a route without a successor, a block
    /// claimed by another train — is a fatal configuration error: the drain
    /// stops there and returns `None`, and the embedding program aborts the
    /// tick loudly.
    #[verifier::rlimit(100)]
    pub fn update(&mut self, inbox: &Vec<TrainMessage>) -> (r: Option<Vec<(u64, SignallerMessage)>>)
        requires
            old(self).wf(),
        ensures
            final(self).wf(),
            same_skeleton(old(self).network.edges@, final(self).network.edges@),
            final(self).train_positions@ == spec_drain(
                old(self).network.edges@,
                old(self).train_positions@,
                old(self).registered@,
                inbox@,
            ).1,
            final(self).registered@ == spec_drain(
                old(self).network.edges@,
                old(self).train_positions@,
                old(self).registered@,
                inbox@,
            ).2,
            final(self).network.edges@ == spec_drain(
                old(self).network.edges@,
                old(self).train_positions@,
                old(self).registered@,
                inbox@,
            ).3,
            (r is Some) == spec_drain(
                old(self).network.edges@,
                old(self).train_positions@,
                old(self).registered@,
                inbox@,
            ).0,
            r matches Some(out) ==> out@ == spec_drain(
                old(self).network.edges@,
                old(self).train_positions@,
                old(self).registered@,
                inbox@,
            ).4,
            r matches Some(out) ==> forall|j: int|
                0 <= j < out@.len() ==> (#[trigger] out@[j]).1.bounded()
                    && final(self).registered@.contains(out@[j].0),
    {
        let ghost edges0 = old(self).network.edges@;
        let ghost pos0 = old(self).train_positions@;
        let ghost reg0 = old(self).registered@;
        let ghost tgt = spec_drain(edges0, pos0, reg0, inbox@);
        let mut out: Vec<(u64, SignallerMessage)> = Vec::new();
        proof {
            assert(inbox@.skip(0) =~= inbox@);
            assert(tgt.4 =~= out@ + tgt.4);
        }
        let n = inbox.len();
        let mut i: usize = 0;
        while i < n
            invariant
                i <= n,
                n == inbox@.len(),
                edges0 == old(self).network.edges@,
                pos0 == old(self).train_positions@,
                reg0 == old(self).registered@,
                tgt == spec_drain(edges0, pos0, reg0, inbox@),
                self.wf(),
                same_skeleton(edges0, self.network.edges@),
                spec_drain(
                    self.network.edges@,
                    self.train_positions@,
                    self.registered@,
                    inbox@.skip(i as int),
                ).0 == tgt.0,
                spec_drain(
                    self.network.edges@,
                    self.train_positions@,
                    self.registered@,
                    inbox@.skip(i as int),
                ).1 == tgt.1,
                spec_drain(
                    self.network.edges@,
                    self.train_positions@,
                    self.registered@,
                    inbox@.skip(i as int),
                ).2 == tgt.2,
                spec_drain(
                    self.network.edges@,
                    self.train_positions@,
                    self.registered@,
                    inbox@.skip(i as int),
                ).3 == tgt.3,
                tgt.4 == out@ + spec_drain(
                    self.network.edges@,
                    self.train_positions@,
                    self.registered@,
                    inbox@.skip(i as int),
                ).4,
                forall|j: int|
                    0 <= j < out@.len() ==> (#[trigger] out@[j]).1.bounded()
                        && self.registered@.contains(out@[j].0),
            decreases n - i,
        {
            proof {
                assert(inbox@.skip(i as int)[0] == inbox@[i as int]);
                assert(inbox@.skip(i as int).drop_first() =~= inbox@.skip(i + 1));
            }
            let ghost edges_cur = self.network.edges@;
            let ghost pos_cur = self.train_positions@;
            let ghost reg_cur = self.registered@;
            let ghost out_cur = out@;
            let msg = inbox[i];
            match msg {
                TrainMessage::HelloWorld { train_id, block_id } => {
                    let has_next = self.network.first_out_target(block_id);
                    let occupied = self.train_positions.get(&block_id, &train_id);
                    if !(has_next.is_some() && occupied.0.is_none() && occupied.1.is_none()) {
                        proof {
                            assert(!spec_hello_ok(edges_cur, pos_cur, train_id, block_id));
                            assert(!tgt.0);
                            assert(tgt.1 == pos_cur);
                            assert(tgt.2 == reg_cur);
                            assert(tgt.3 == edges_cur);
                        }
                        return None;
                    }
                    proof {
                        assert(spec_hello_ok(edges_cur, pos_cur, train_id, block_id));
                    }
                    self.process_hello(train_id, block_id, &mut out);
                    proof {
                        lemma_push_contains(reg_cur, train_id);
                        let nb = edges_cur[Network::first_out(edges_cur, block_id)].to;
                        let nbm = spec_new_block_msg(edges_cur, block_id, nb, train_id);
                        let pos1 = pos_cur.push((block_id, train_id));
                        let prop = spec_propagate(
                            edges_cur,
                            pos1,
                            block_id,
                            Owner::Train { id: train_id },
                            SignalColour::Red,
                        );
                        let rec = spec_drain(
                            prop.0,
                            pos1,
                            reg_cur.push(train_id),
                            inbox@.skip(i + 1),
                        );
                        assert(spec_drain(edges_cur, pos_cur, reg_cur, inbox@.skip(i as int))
                            == (rec.0, rec.1, rec.2, rec.3, seq![nbm] + prop.1 + rec.4));
                        assert(self.network.edges@ == prop.0);
                        assert(self.train_positions@ == pos1);
                        assert(self.registered@ == reg_cur.push(train_id));
                        assert(out@ == out_cur.push(nbm) + prop.1);
                        assert(out@ =~= out_cur + (seq![nbm] + prop.1));
                        assert(tgt.4 =~= out@ + rec.4);
                        assert forall|j: int|
                            0 <= j < out@.len() implies (#[trigger] out@[j]).1.bounded()
                            && self.registered@.contains(out@[j].0) by {
                            if j < out_cur.len() {
                                assert(out@[j] == out_cur[j]);
                            }
                        }
                    }
                },
                TrainMessage::ReserveNextBlock { train_id } => {
                    let got = self.train_positions.get(&0, &train_id);
                    let block_id = match got.1 {
                        Some(bk) => bk,
                        None => {
                            proof {
                                assert(!pos_has_train(pos_cur, train_id));
                                assert(!spec_reserve_ok(edges_cur, pos_cur, train_id));
                                assert(!tgt.0);
                                assert(tgt.1 == pos_cur);
                                assert(tgt.2 == reg_cur);
                                assert(tgt.3 == edges_cur);
                            }
                            return None;
                        },
                    };
                    proof {
                        let k = choose|k: int|
                            0 <= k < pos_cur.len() && (#[trigger] pos_cur[k]).1.eq_spec(&train_id)
                                && pos_cur[k].0 == block_id;
                        let j = choose|j: int|
                            0 <= j < pos_cur.len() && (#[trigger] pos_cur[j]).1 == train_id;
                        if k != j {
                            assert(false);
                        }
                        assert(block_id == pos_block_of(pos_cur, train_id));
                    }
                    let next_block_id = match self.network.first_out_target(block_id) {
                        Some(t) => t,
                        None => {
                            proof {
                                assert(!spec_reserve_ok(edges_cur, pos_cur, train_id));
                                assert(!tgt.0);
                                assert(tgt.1 == pos_cur);
                                assert(tgt.2 == reg_cur);
                                assert(tgt.3 == edges_cur);
                            }
                            return None;
                        },
                    };
                    proof {
                        lemma_first_out_props(edges_cur, block_id);
                        assert(next_block_id == edges_cur[Network::first_out(
                            edges_cur,
                            block_id,
                        )].to);
                        assert(next_block_id != block_id);
                        lemma_drop_keys_props(pos_cur, block_id, train_id);
                    }
                    let claimed = self.train_positions.get(&next_block_id, &0);
                    let ghost dropped = BiHashMap::<u64, u64>::drop_keys(
                        pos_cur,
                        block_id,
                        train_id,
                    );
                    match claimed.0 {
                        Some(other) => {
                            proof {
                                let k = choose|k: int|
                                    0 <= k < pos_cur.len() && (#[trigger] pos_cur[k]).0.eq_spec(
                                        &next_block_id,
                                    ) && pos_cur[k].1 == other;
                                if other == train_id {
                                    let j = choose|j: int|
                                        0 <= j < pos_cur.len() && (#[trigger] pos_cur[j]).1
                                            == train_id && pos_cur[j].0 == block_id;
                                    assert(false);
                                }
                                assert(pos_cur[k].0 != block_id && pos_cur[k].1 != train_id);
                                assert(pos_has_block(dropped, next_block_id));
                                assert(!spec_reserve_ok(edges_cur, pos_cur, train_id));
                                assert(!tgt.0);
                                assert(tgt.1 == pos_cur);
                                assert(tgt.2 == reg_cur);
                                assert(tgt.3 == edges_cur);
                            }
                            return None;
                        },
                        None => {
                            proof {
                                assert forall|ii: int|
                                    0 <= ii < dropped.len() implies (#[trigger] dropped[ii]).0
                                    != next_block_id by {
                                    let w = choose|w: int|
                                        0 <= w < pos_cur.len() && #[trigger] dropped[ii]
                                            == pos_cur[w];
                                    assert(!pos_cur[w].0.eq_spec(&next_block_id));
                                }
                                assert(!pos_has_block(dropped, next_block_id));
                                assert(spec_reserve_ok(edges_cur, pos_cur, train_id));
                            }
                        },
                    }
                    self.process_reserve(train_id, &mut out);
                    proof {
                        let b = pos_block_of(pos_cur, train_id);
                        let nb = edges_cur[Network::first_out(edges_cur, b)].to;
                        let nbm = spec_new_block_msg(edges_cur, b, nb, train_id);
                        let pos1 = dropped.push((nb, train_id));
                        let prop = spec_propagate(
                            edges_cur,
                            pos1,
                            b,
                            Owner::Train { id: train_id },
                            SignalColour::Red,
                        );
                        let rec = spec_drain(prop.0, pos1, reg_cur, inbox@.skip(i + 1));
                        assert(spec_drain(edges_cur, pos_cur, reg_cur, inbox@.skip(i as int))
                            == (rec.0, rec.1, rec.2, rec.3, seq![nbm] + prop.1 + rec.4));
                        assert(self.network.edges@ == prop.0);
                        assert(self.train_positions@ == pos1);
                        assert(self.registered@ == reg_cur);
                        assert(out@ == out_cur.push(nbm) + prop.1);
                        assert(out@ =~= out_cur + (seq![nbm] + prop.1));
                        assert(tgt.4 =~= out@ + rec.4);
                        assert forall|j: int|
                            0 <= j < out@.len() implies (#[trigger] out@[j]).1.bounded()
                            && self.registered@.contains(out@[j].0) by {
                            if j < out_cur.len() {
                                assert(out@[j] == out_cur[j]);
                            }
                        }
                    }
                },
            }
            i = i + 1;
        }
        proof {
            assert(inbox@.skip(n as int) =~= Seq::<TrainMessage>::empty());
            assert(tgt.4 =~= out@);
        }
        Some(out)
    }
}

/// Pushing keeps everything already contained, and contains what was
/// pushed.
proof fn lemma_push_contains(s: Seq<u64>, x: u64)
    ensures
        forall|y: u64| s.contains(y) ==> #[trigger] s.push(x).contains(y),
        s.push(x).contains(x),
{
    assert forall|y: u64| s.contains(y) implies #[trigger] s.push(x).contains(y) by {
        let i = choose|i: int| 0 <= i < s.len() && s[i] == y;
        assert(s.push(x)[i] == y);
    }
    assert(s.push(x)[s.len() as int] == x);
}

/// A fresh pair keeps the index consistent: pushing a pair whose block and
/// train are both unclaimed preserves pairwise distinctness of both sides.
pub proof fn lemma_push_consistent(pos: Seq<(u64, u64)>, block_id: u64, train_id: u64)
    requires
        BiHashMap::<u64, u64>::consistent(pos),
        !pos_has_block(pos, block_id),
        !pos_has_train(pos, train_id),
    ensures
        BiHashMap::<u64, u64>::consistent(pos.push((block_id, train_id))),
{
    let p = pos.push((block_id, train_id));
    assert forall|i: int, j: int| 0 <= i < j < p.len() implies !(#[trigger] p[i]).0.eq_spec(
        &(#[trigger] p[j]).0,
    ) && !p[i].1.eq_spec(&p[j].1) by {
        if j == pos.len() {
            assert(p[i] == pos[i]);
            assert(p[j] == (block_id, train_id));
        } else {
            assert(p[i] == pos[i]);
            assert(p[j] == pos[j]);
        }
    }
}

/// What removal leaves: no pair keyed by either removed key, only pairs
/// that were already present, and a consistent index stays consistent.
#[verifier::rlimit(60)]
pub proof fn lemma_drop_keys_props(pos: Seq<(u64, u64)>, a: u64, b: u64)
    ensures
        forall|i: int|
            0 <= i < BiHashMap::<u64, u64>::drop_keys(pos, a, b).len() ==> (
            #[trigger] BiHashMap::<u64, u64>::drop_keys(pos, a, b)[i]).0 != a
                && BiHashMap::<u64, u64>::drop_keys(pos, a, b)[i].1 != b,
        forall|i: int|
            0 <= i < BiHashMap::<u64, u64>::drop_keys(pos, a, b).len() ==> exists|j: int|
                0 <= j < pos.len() && (#[trigger] BiHashMap::<u64, u64>::drop_keys(pos, a, b)[i])
                    == #[trigger] pos[j],
        BiHashMap::<u64, u64>::consistent(pos) ==> BiHashMap::<u64, u64>::consistent(
            BiHashMap::<u64, u64>::drop_keys(pos, a, b),
        ),
        forall|j: int|
            0 <= j < pos.len() && (#[trigger] pos[j]).0 != a && pos[j].1 != b ==> exists|i: int|
                0 <= i < BiHashMap::<u64, u64>::drop_keys(pos, a, b).len()
                    && #[trigger] BiHashMap::<u64, u64>::drop_keys(pos, a, b)[i] == pos[j],
    decreases pos.len(),
{
    if pos.len() > 0 {
        let init = pos.drop_last();
        lemma_drop_keys_props(init, a, b);
        let di = BiHashMap::<u64, u64>::drop_keys(init, a, b);
        let d = BiHashMap::<u64, u64>::drop_keys(pos, a, b);
        let last = pos.last();
        let dropped_last = last.0.eq_spec(&a) || last.1.eq_spec(&b);
        if BiHashMap::<u64, u64>::consistent(pos) {
            assert forall|i: int, j: int| 0 <= i < j < init.len() implies !(
            #[trigger] init[i]).0.eq_spec(&(#[trigger] init[j]).0) && !init[i].1.eq_spec(
                &init[j].1,
            ) by {
                assert(init[i] == pos[i]);
                assert(init[j] == pos[j]);
            }
            assert(BiHashMap::<u64, u64>::consistent(init));
        }
        assert forall|i: int| 0 <= i < d.len() implies exists|j: int|
            0 <= j < pos.len() && (#[trigger] d[i]) == #[trigger] pos[j] by {
            if i < di.len() {
                assert(d[i] == di[i]);
                let j = choose|j: int| 0 <= j < init.len() && di[i] == #[trigger] init[j];
                assert(pos[j] == init[j]);
            } else {
                assert(d[i] == last);
                assert(pos[pos.len() - 1] == last);
            }
        }
        assert forall|j: int|
            0 <= j < pos.len() && (#[trigger] pos[j]).0 != a && pos[j].1 != b implies exists|i: int|
            0 <= i < d.len() && #[trigger] d[i] == pos[j] by {
            if j < pos.len() - 1 {
                assert(init[j] == pos[j]);
                let w = choose|w: int| 0 <= w < di.len() && #[trigger] di[w] == init[j];
                assert(d[w] == di[w]);
            } else {
                assert(pos[j] == last);
                assert(d[d.len() - 1] == last);
            }
        }
        if BiHashMap::<u64, u64>::consistent(pos) && !dropped_last {
            assert forall|ii: int| 0 <= ii < di.len() implies (#[trigger] di[ii]).0 != last.0
                && di[ii].1 != last.1 by {
                let j = choose|j: int| 0 <= j < init.len() && di[ii] == #[trigger] init[j];
                assert(init[j] == pos[j]);
                assert(!pos[j].0.eq_spec(&pos[pos.len() - 1].0));
                assert(!pos[j].1.eq_spec(&pos[pos.len() - 1].1));
            }
            assert(!pos_has_block(di, last.0));
            assert(!pos_has_train(di, last.1));
            lemma_push_consistent(di, last.0, last.1);
            assert(last == (last.0, last.1));
            assert(d == di.push(last));
        }
    }
}

/// Position-index consistency, lookup form: in a consistent index every
/// placed pair is found whole from either key — the block of a placed
/// train and the occupant of a claimed block are the two sides of the same
/// entry.
pub proof fn lemma_pair_lookup_consistent(pos: Seq<(u64, u64)>, i: int)
    requires
        BiHashMap::<u64, u64>::consistent(pos),
        0 <= i < pos.len(),
    ensures
        pos_has_train(pos, pos[i].1),
        pos_block_of(pos, pos[i].1) == pos[i].0,
        occupant_of(pos, pos[i].0) == Some(pos[i].1),
{
    let t = pos[i].1;
    assert(pos_has_train(pos, t));
    let j = choose|j: int| 0 <= j < pos.len() && (#[trigger] pos[j]).1 == t;
    if j < i {
        assert(!pos[j].1.eq_spec(&pos[i].1));
        assert(false);
    } else if i < j {
        assert(!pos[i].1.eq_spec(&pos[j].1));
        assert(false);
    }
    let b = pos[i].0;
    assert(pos_has_block(pos, b));
    let k = choose|k: int| 0 <= k < pos.len() && (#[trigger] pos[k]).0 == b;
    if k < i {
        assert(!pos[k].0.eq_spec(&pos[i].0));
        assert(false);
    } else if i < k {
        assert(!pos[i].0.eq_spec(&pos[k].0));
        assert(false);
    }
}

/// Position-index consistency under the protocol: over any admissible
/// sequence of `HelloWorld` and `ReserveNextBlock` messages, the position
/// index keeps exactly one entry per placed train and per claimed block —
/// neither side of the mapping ever repeats, so a lookup by either key has
/// a unique answer.
pub proof fn lemma_drain_keeps_consistency(
    edges: Seq<EdgeRec>,
    pos: Seq<(u64, u64)>,
    reg: Seq<u64>,
    inbox: Seq<TrainMessage>,
)
    requires
        BiHashMap::<u64, u64>::consistent(pos),
        spec_drain(edges, pos, reg, inbox).0,
    ensures
        BiHashMap::<u64, u64>::consistent(spec_drain(edges, pos, reg, inbox).1),
    decreases inbox.len(),
{
    if inbox.len() > 0 {
        match inbox[0] {
            TrainMessage::HelloWorld { train_id, block_id } => {
                lemma_push_consistent(pos, block_id, train_id);
                let pos1 = pos.push((block_id, train_id));
                lemma_drain_keeps_consistency(
                    spec_propagate(
                        edges,
                        pos1,
                        block_id,
                        Owner::Train { id: train_id },
                        SignalColour::Red,
                    ).0,
                    pos1,
                    reg.push(train_id),
                    inbox.drop_first(),
                );
            },
            TrainMessage::ReserveNextBlock { train_id } => {
                let b = pos_block_of(pos, train_id);
                let nb = edges[Network::first_out(edges, b)].to;
                lemma_drop_keys_props(pos, b, train_id);
                let dropped = BiHashMap::<u64, u64>::drop_keys(pos, b, train_id);
                assert(!pos_has_train(dropped, train_id));
                lemma_push_consistent(dropped, nb, train_id);
                let pos1 = dropped.push((nb, train_id));
                lemma_drain_keeps_consistency(
                    spec_propagate(
                        edges,
                        pos1,
                        b,
                        Owner::Train { id: train_id },
                        SignalColour::Red,
                    ).0,
                    pos1,
                    reg,
                    inbox.drop_first(),
                );
            },
        }
    }
}

} // verus!
