//! The simulation core: one signaller, the drivers, and the message queues
//! between them.
//!
//! Each tick advances the signaller over the drivers' queued requests,
//! routes its answers to the drivers they address, and then advances every
//! driver (and so its train's physics) by one time step. The wall-clock
//! pacing, speed-up factor and rendering around this loop are the embedding
//! program's concern.

use crate::driver::Driver;
use crate::message::{SignallerMessage, TrainMessage};
use crate::signaller::{spec_drain, Signaller};
use vstd::prelude::*;

verus! {

/// The messages among `outs` addressed to train `id`, in order: the inbox
/// one driver receives from a tick's outbound batch.
pub open spec fn spec_route(outs: Seq<(u64, SignallerMessage)>, id: u64) -> Seq<SignallerMessage>
    decreases outs.len(),
{
    if outs.len() == 0 {
        Seq::empty()
    } else {
        let init = spec_route(outs.drop_last(), id);
        if outs.last().0 == id {
            init.push(outs.last().1)
        } else {
            init
        }
    }
}

/// The requests the drivers raise during one tick, in driver order: each
/// driver steps over its routed inbox and may ask for its next block.
pub open spec fn spec_requests(drivers: Seq<Driver>, outs: Seq<(u64, SignallerMessage)>) -> Seq<
    TrainMessage,
>
    decreases drivers.len(),
{
    if drivers.len() == 0 {
        Seq::empty()
    } else {
        let init = spec_requests(drivers.drop_last(), outs);
        let d = drivers.last();
        match Driver::spec_time_step(d, spec_route(outs, d.train.name)).1 {
            Some(m) => init.push(m),
            None => init,
        }
    }
}

/// The simulation: the signalling actor, the per-train driver actors, and
/// the driver requests queued for the next tick.
#[derive(Debug)]
pub struct Simulation {
    pub signaller: Signaller,
    pub drivers: Vec<Driver>,
    pub pending: Vec<TrainMessage>,
}

impl Simulation {
    /// The bounds every simulation satisfies.
    pub open spec fn wf(self) -> bool {
        &&& self.signaller.wf()
        &&& forall|i: int| 0 <= i < self.drivers@.len() ==> (#[trigger] self.drivers@[i]).wf()
    }

    /// Assembles a simulation from a signaller, its drivers, and the
    /// drivers' initial announcements (each driver's `HelloWorld` from
    /// [`Driver::new`]), which the first tick will deliver.
    pub fn new(signaller: Signaller, drivers: Vec<Driver>, pending: Vec<TrainMessage>) -> (r:
        Simulation)
        requires
            signaller.wf(),
            forall|i: int| 0 <= i < drivers@.len() ==> (#[trigger] drivers@[i]).wf(),
        ensures
            r.signaller == signaller,
            r.drivers@ == drivers@,
            r.pending@ == pending@,
            r.wf(),
    {
        Simulation { signaller, drivers, pending }
    }

    /// One simulation tick: the signaller drains the pending driver
    /// requests, each driver receives the answers addressed to it and
    /// advances one time step, and the requests the drivers raise are
    /// queued for the next tick. The signaller's drain, each driver's step
    /// and the requeued requests are all pinned exactly by [`spec_drain`],
    /// [`Driver::spec_time_step`] and [`spec_requests`].
    ///
    /// Returns whether the tick succeeded. A tick fails — loudly, with no
    /// driver advanced — when the signaller meets an inadmissible request
    /// (a malformed route or a conflicting reservation), which is a fatal
    /// configuration error.
    pub fn time_step(&mut self) -> (r: bool)
        requires
            old(self).wf(),
        ensures
            final(self).wf(),
            final(self).drivers@.len() == old(self).drivers@.len(),
            r == spec_drain(
                old(self).signaller.network.edges@,
                old(self).signaller.train_positions@,
                old(self).signaller.registered@,
                old(self).pending@,
            ).0,
            r ==> forall|k: int|
                0 <= k < old(self).drivers@.len() ==> final(self).drivers@[k]
                    == Driver::spec_time_step(
                    #[trigger] old(self).drivers@[k],
                    spec_route(
                        spec_drain(
                            old(self).signaller.network.edges@,
                            old(self).signaller.train_positions@,
                            old(self).signaller.registered@,
                            old(self).pending@,
                        ).4,
                        old(self).drivers@[k].train.name,
                    ),
                ).0,
            r ==> final(self).pending@ == spec_requests(
                old(self).drivers@,
                spec_drain(
                    old(self).signaller.network.edges@,
                    old(self).signaller.train_positions@,
                    old(self).signaller.registered@,
                    old(self).pending@,
                ).4,
            ),
            !r ==> final(self).drivers == old(self).drivers && final(self).pending == old(
                self,
            ).pending,
    {
        let ghost drivers0 = self.drivers@;
        let outs = match self.signaller.update(&self.pending) {
            Some(outs) => outs,
            None => {
                return false;
            },
        };
        self.pending = Vec::new();
        proof {
            assert(drivers0.take(0) =~= Seq::<Driver>::empty());
        }
        let n = self.drivers.len();
        let mut i: usize = 0;
        while i < n
            invariant
                i <= n,
                n == self.drivers@.len(),
                n == drivers0.len(),
                self.wf(),
                forall|j: int| 0 <= j < outs@.len() ==> (#[trigger] outs@[j]).1.bounded(),
                forall|k: int|
                    0 <= k < i ==> self.drivers@[k] == Driver::spec_time_step(
                        #[trigger] drivers0[k],
                        spec_route(outs@, drivers0[k].train.name),
                    ).0,
                forall|k: int| i <= k < n ==> #[trigger] self.drivers@[k] == drivers0[k],
                self.pending@ == spec_requests(drivers0.take(i as int), outs@),
            decreases n - i,
        {
            let id = self.drivers[i].train.name;
            let mut inbox: Vec<SignallerMessage> = Vec::new();
            proof {
                assert(outs@.take(0) =~= Seq::<(u64, SignallerMessage)>::empty());
            }
            let m = outs.len();
            let mut j: usize = 0;
            while j < m
                invariant
                    j <= m,
                    m == outs@.len(),
                    forall|k: int| 0 <= k < outs@.len() ==> (#[trigger] outs@[k]).1.bounded(),
                    forall|k: int| 0 <= k < inbox@.len() ==> (#[trigger] inbox@[k]).bounded(),
                    inbox@ == spec_route(outs@.take(j as int), id),
                decreases m - j,
            {
                proof {
                    assert(outs@.take(j + 1).drop_last() =~= outs@.take(j as int));
                    assert(outs@.take(j + 1).last() == outs@[j as int]);
                }
                if outs[j].0 == id {
                    inbox.push(outs[j].1);
                }
                j = j + 1;
            }
            proof {
                assert(outs@.take(m as int) =~= outs@);
                assert(drivers0.take(i + 1).drop_last() =~= drivers0.take(i as int));
                assert(drivers0.take(i + 1).last() == drivers0[i as int]);
            }
            let d = &mut self.drivers[i];
            let request = d.time_step(&inbox);
            match request {
                Some(msg) => self.pending.push(msg),
                None => {},
            }
            proof {
                assert forall|k: int| 0 <= k < self.drivers@.len() implies (
                #[trigger] self.drivers@[k]).wf() by {
                }
                assert(self.pending@ == spec_requests(drivers0.take(i + 1), outs@));
            }
            i = i + 1;
        }
        proof {
            assert(drivers0.take(n as int) =~= drivers0);
        }
        true
    }
}

} // verus!
