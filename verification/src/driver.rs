//! The driver: the per-train control actor.
//!
//! A driver owns one train and talks to the signaller purely by messages.
//! On construction it produces the `HelloWorld` announcing its starting
//! block. Each tick it applies the signaller's pending messages in order,
//! retargets speed and distance, asks for the next block once the current
//! block's far boundary is crossed, and advances the train physics by one
//! time step.

use crate::message::{SignallerMessage, TrainMessage};
use crate::signal::SignalColour;
use crate::train::{clamp_i, Train, DMAX_MM, PMAX_MM, VMAX_MM_S};
use vstd::prelude::*;

verus! {

/// The target velocity (mm/s) commanded by an aspect over a block with the
/// given limit (canonical units): stop at `Red`, half the limit at
/// `Yellow`, three quarters at `DoubleYellow`, the full limit at `Green`.
pub open spec fn spec_target_velocity(colour: SignalColour, limit: int) -> int {
    match colour {
        SignalColour::Red => 0,
        SignalColour::Yellow => limit * 500,
        SignalColour::DoubleYellow => limit * 750,
        SignalColour::Green => limit * 1000,
    }
}

/// One per-train control actor: its train, the nodes bounding the block it
/// is running (from `src` toward `dst`), its fixed time step in
/// milliseconds, and its (informational) timetable of stops.
#[derive(Debug, Clone, PartialEq, Eq)]
pub struct Driver {
    pub train: Train,
    pub src: u64,
    pub dst: u64,
    pub delta_time: u64,
    pub timetable: Vec<(u64, usize, u32)>,
}

impl Driver {
    /// The bounds every driver satisfies.
    pub open spec fn wf(self) -> bool {
        &&& self.train.wf()
        &&& 1 <= self.delta_time <= 60_000
    }

    /// The driver after applying one signaller message.
    ///
    /// `NewBlock` is a block transition: the position is rebased by the old
    /// block's length (clamped into the position bound), the block length
    /// and destination bookkeeping are replaced, and the target velocity is
    /// recomputed from the new aspect. `UpdateBlock` only recomputes the
    /// target velocity.
    pub open spec fn spec_apply_message(d: Driver, m: SignallerMessage) -> Driver {
        match m {
            SignallerMessage::NewBlock { new_block_id, colour, limit, length } => Driver {
                train: Train {
                    position: clamp_i(
                        d.train.position - d.train.block_length,
                        -PMAX_MM as int,
                        PMAX_MM as int,
                    ) as i64,
                    block_length: (length * 1000) as i64,
                    target_velocity: spec_target_velocity(colour, limit as int) as i64,
                    ..d.train
                },
                src: d.dst,
                dst: new_block_id,
                ..d
            },
            SignallerMessage::UpdateBlock { colour, limit } => Driver {
                train: Train {
                    target_velocity: spec_target_velocity(colour, limit as int) as i64,
                    ..d.train
                },
                ..d
            },
        }
    }

    /// The driver after applying a queue of signaller messages in order.
    pub open spec fn spec_apply_all(d: Driver, msgs: Seq<SignallerMessage>) -> Driver
        decreases msgs.len(),
    {
        if msgs.len() == 0 {
            d
        } else {
            Self::spec_apply_all(Self::spec_apply_message(d, msgs[0]), msgs.drop_first())
        }
    }

    /// One whole driver tick over an inbox: apply the messages, retarget
    /// the remaining distance, decide whether to ask for the next block,
    /// and advance the physics.
    pub open spec fn spec_time_step(d: Driver, msgs: Seq<SignallerMessage>) -> (
        Driver,
        Option<TrainMessage>,
    ) {
        let d1 = Self::spec_apply_all(d, msgs);
        let d2 = Driver {
            train: Train {
                target_distance: (d1.train.block_length - d1.train.position) as i64,
                ..d1.train
            },
            ..d1
        };
        let request = if d2.train.position > d2.train.block_length {
            Some(TrainMessage::ReserveNextBlock { train_id: d2.train.name })
        } else {
            None
        };
        let d3 = Driver { train: Train::spec_update(d2.train, d.delta_time as int), ..d2 };
        (d3, request)
    }

    /// Builds the driver for `train`, heading toward `dst`, and its
    /// `HelloWorld` announcement. The caller owns delivery: the message is
    /// returned rather than sent, and registration with the signaller hands
    /// it the route back to this driver.
    pub fn new(train: Train, dst: u64, delta_time: u64, timetable: Vec<(u64, usize, u32)>) -> (r: (
        Driver,
        TrainMessage,
    ))
        requires
            train.wf(),
            1 <= delta_time <= 60_000,
        ensures
            r.0.train == train,
            r.0.src == dst,
            r.0.dst == dst,
            r.0.delta_time == delta_time,
            r.0.timetable@ == timetable@,
            r.0.wf(),
            r.1 == (TrainMessage::HelloWorld { train_id: train.name, block_id: dst }),
    {
        let hello = TrainMessage::HelloWorld { train_id: train.name, block_id: dst };
        (Driver { train, src: dst, dst, delta_time, timetable }, hello)
    }

    /// The status pair shown by the renderer: the train's name and the node
    /// it is heading toward.
    pub fn status(&self) -> (r: (u64, u64))
        ensures
            r == (self.train.name, self.dst),
    {
        (self.train.name, self.dst)
    }

    /// Recomputes the target velocity from an aspect and a block limit.
    fn adjust_speed(&mut self, colour: SignalColour, limit: u32)
        requires
            limit <= 500,
        ensures
            *final(self) == (Driver {
                train: Train {
                    target_velocity: spec_target_velocity(colour, limit as int) as i64,
                    ..old(self).train
                },
                ..*old(self)
            }),
    {
        let l = limit as i64;
        let tv: i64 = match colour {
            SignalColour::Red => 0,
            SignalColour::Yellow => l * 500,
            SignalColour::DoubleYellow => l * 750,
            SignalColour::Green => l * 1000,
        };
        self.train.target_velocity = tv;
    }

    /// One driver tick: drains `inbox` in order, then retargets, asks for
    /// the next block if the boundary was crossed (the returned request),
    /// and advances the train. Exactly [`Driver::spec_time_step`].
    pub fn time_step(&mut self, inbox: &Vec<SignallerMessage>) -> (r: Option<TrainMessage>)
        requires
            old(self).wf(),
            forall|i: int| 0 <= i < inbox@.len() ==> (#[trigger] inbox@[i]).bounded(),
        ensures
            (*final(self), r) == Self::spec_time_step(*old(self), inbox@),
            final(self).wf(),
    {
        proof {
            assert(inbox@.skip(0) =~= inbox@);
        }
        let n = inbox.len();
        let mut i: usize = 0;
        while i < n
            invariant
                i <= n,
                n == inbox@.len(),
                forall|k: int| 0 <= k < inbox@.len() ==> (#[trigger] inbox@[k]).bounded(),
                self.wf(),
                Self::spec_apply_all(*self, inbox@.skip(i as int)) == Self::spec_apply_all(
                    *old(self),
                    inbox@,
                ),
            decreases n - i,
        {
            let ghost prev = *self;
            let m = inbox[i];
            match m {
                SignallerMessage::NewBlock { new_block_id, colour, limit, length } => {
                    let rebased = self.train.position - self.train.block_length;
                    self.train.position = if rebased < -PMAX_MM {
                        -PMAX_MM
                    } else if rebased > PMAX_MM {
                        PMAX_MM
                    } else {
                        rebased
                    };
                    self.train.block_length = (length as i64) * 1000;
                    self.src = self.dst;
                    self.dst = new_block_id;
                    self.adjust_speed(colour, limit);
                },
                SignallerMessage::UpdateBlock { colour, limit } => {
                    self.adjust_speed(colour, limit);
                },
            }
            proof {
                assert(*self == Self::spec_apply_message(prev, inbox@[i as int]));
                assert(inbox@.skip(i as int).drop_first() =~= inbox@.skip(i + 1));
                assert(inbox@.skip(i as int)[0] == inbox@[i as int]);
            }
            i = i + 1;
        }
        proof {
            assert(inbox@.skip(n as int) =~= Seq::<SignallerMessage>::empty());
            lemma_apply_all_keeps_config(*old(self), inbox@);
        }

        self.train.target_distance = self.train.block_length - self.train.position;

        let request: Option<TrainMessage> = if self.train.position > self.train.block_length {
            Some(TrainMessage::ReserveNextBlock { train_id: self.train.name })
        } else {
            None
        };

        self.train.update(self.delta_time);
        request
    }
}

/// Applying signaller messages never changes a driver's time step.
proof fn lemma_apply_all_keeps_config(d: Driver, msgs: Seq<SignallerMessage>)
    ensures
        Driver::spec_apply_all(d, msgs).delta_time == d.delta_time,
    decreases msgs.len(),
{
    if msgs.len() > 0 {
        lemma_apply_all_keeps_config(Driver::spec_apply_message(d, msgs[0]), msgs.drop_first());
    }
}

} // verus!
