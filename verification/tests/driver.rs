use railsim::driver::Driver;
use railsim::message::{SignallerMessage, TrainMessage};
use railsim::signal::SignalColour;
use railsim::train::Train;

fn class_802(name: u64) -> Train {
    Train::new(name, 300_000, 700_000, 3, 2500, 3500, 1000, 9810)
}

#[test]
fn construction_announces_the_starting_block() {
    let (d, hello) = Driver::new(class_802(802208), 1, 10, vec![(4, 1, 2000)]);
    assert_eq!(hello, TrainMessage::HelloWorld { train_id: 802208, block_id: 1 });
    assert_eq!(d.dst, 1);
    assert_eq!(d.status(), (802208, 1));
}

#[test]
fn aspects_command_fractions_of_the_limit() {
    // Red stops, Yellow commands half the limit, DoubleYellow three
    // quarters, Green the full limit (56 m/s in mm/s).
    let cases = [
        (SignalColour::Red, 0),
        (SignalColour::Yellow, 28_000),
        (SignalColour::DoubleYellow, 42_000),
        (SignalColour::Green, 56_000),
    ];
    for (colour, expected) in cases {
        let (mut d, _) = Driver::new(class_802(1), 1, 10, vec![]);
        let inbox = vec![SignallerMessage::UpdateBlock { colour, limit: 56 }];
        d.time_step(&inbox);
        assert_eq!(d.train.target_velocity, expected);
    }
}

#[test]
fn new_block_rebases_position_and_bookkeeping() {
    let (mut d, _) = Driver::new(class_802(1), 1, 10, vec![]);
    d.train.position = 4_000_500;
    d.train.block_length = 4_000_000;
    let inbox = vec![SignallerMessage::NewBlock {
        new_block_id: 2,
        colour: SignalColour::Green,
        limit: 56,
        length: 3000,
    }];
    d.time_step(&inbox);
    // Position rebased by the old block's length; the physics step then
    // moves it on from 500.
    assert!(d.train.position >= 500);
    assert!(d.train.position < 1000);
    assert_eq!(d.train.block_length, 3_000_000);
    assert_eq!(d.src, 1);
    assert_eq!(d.dst, 2);
    assert_eq!(d.train.target_velocity, 56_000);
}

#[test]
fn crossing_the_boundary_requests_the_next_block() {
    let (mut d, _) = Driver::new(class_802(802212), 1, 10, vec![]);
    d.train.position = 4_000_500;
    d.train.block_length = 4_000_000;
    let request = d.time_step(&Vec::new());
    assert_eq!(request, Some(TrainMessage::ReserveNextBlock { train_id: 802212 }));
}

#[test]
fn no_request_inside_the_block() {
    let (mut d, _) = Driver::new(class_802(1), 1, 10, vec![]);
    d.train.position = 1_000_000;
    d.train.block_length = 4_000_000;
    let request = d.time_step(&Vec::new());
    assert_eq!(request, None);
    // The remaining distance was retargeted before the physics step.
    assert!(d.train.target_distance == 3_000_000);
}
