use railsim::block::Block;
use railsim::driver::Driver;
use railsim::message::TrainMessage;
use railsim::network::Network;
use railsim::signal::Signal;
use railsim::signaller::Signaller;
use railsim::simulation::Simulation;
use railsim::train::Train;

const A: u64 = 1;
const B: u64 = 2;
const C: u64 = 3;
const D: u64 = 4;
const E: u64 = 5;
const F: u64 = 6;

fn class_802(name: u64) -> Train {
    Train::new(name, 300_000, 700_000, 3, 2500, 3500, 1000, 9810)
}

fn ring() -> Network {
    let mut network = Network::new();
    network.add_edge(F, A, Block::new_track(4000, 125, Signal::new()));
    network.add_edge(A, B, Block::new_track(4000, 125, Signal::new()));
    network.add_edge(B, C, Block::new_track(4000, 60, Signal::new()));
    network.add_edge(C, D, Block::new_track(4000, 60, Signal::new()));
    network.add_edge(D, E, Block::new_track(4000, 125, Signal::new()));
    network.add_edge(E, F, Block::new_track(4000, 125, Signal::new()));
    network
}

#[test]
fn trains_accelerate_and_advance_through_the_loop() {
    let signaller = Signaller::new(ring());
    let (d1, hello1) = Driver::new(class_802(802208), A, 10, vec![(D, 1, 2000)]);
    let (d2, hello2) = Driver::new(class_802(802212), C, 10, vec![(E, 1, 2000)]);
    let mut sim = Simulation::new(signaller, vec![d1, d2], vec![hello1, hello2]);

    // 300 simulated seconds at 10 ms per tick.
    for _ in 0..30_000 {
        assert!(sim.time_step());
    }

    // Both trains were told their reserved blocks and got moving.
    assert!(sim.drivers[0].train.velocity > 0);
    assert!(sim.drivers[1].train.velocity > 0);
    // The first train has crossed at least one boundary and asked on: its
    // destination bookkeeping moved past the entry block.
    assert!(sim.drivers[0].train.position >= 0);
    assert_eq!(sim.drivers[0].dst, B);
    // The position index still pairs each train with exactly one block.
    let p1 = sim.signaller.train_positions.get(&0, &802208).1;
    let p2 = sim.signaller.train_positions.get(&0, &802212).1;
    assert!(p1.is_some());
    assert!(p2.is_some());
    assert_ne!(p1, p2);
}

#[test]
fn an_inadmissible_request_fails_the_tick() {
    let signaller = Signaller::new(ring());
    let pending = vec![TrainMessage::ReserveNextBlock { train_id: 7 }];
    let mut sim = Simulation::new(signaller, Vec::new(), pending);
    assert!(!sim.time_step());
}
